use vstd::prelude::*;

verus! {

/// The site's answer to a referent query.
#[derive(Debug, Clone, PartialEq, Eq)]
pub struct GeniusReferentRequest {
    pub response: GeniusReferentResponse,
}

#[derive(Debug, Clone, PartialEq, Eq)]
pub struct GeniusReferentResponse {
    pub referent: GeniusReferent,
}

/// A fragment of the lyrics and the annotations written on it.
#[derive(Debug, Clone, PartialEq, Eq)]
pub struct GeniusReferent {
    pub id: i32,
    pub fragment: String,
    pub annotations: Vec<GeniusAnnotation>,
}

#[derive(Debug, Clone, PartialEq, Eq)]
pub struct GeniusAnnotation {
    pub id: i32,
    pub body: GeniusAnnotationBody,
    pub votes_total: i32,
}

/// An annotation's text, as HTML.
#[derive(Debug, Clone, PartialEq, Eq)]
pub struct GeniusAnnotationBody {
    pub html: String,
}

/// The site's hosts that this proxy talks to.
#[derive(Debug, Clone, Copy, PartialEq, Eq)]
pub enum SubDomain {
    Api,
    Images,
    Root,
}

impl SubDomain {
    /// The host prefix before the site's domain.
    pub open spec fn prefix(self) -> Seq<char> {
        match self {
            SubDomain::Images => "images."@,
            SubDomain::Root => ""@,
            SubDomain::Api => ""@,
        }
    }

    pub fn value(&self) -> (r: &'static str)
        ensures
            r@ == self.prefix(),
    {
        match *self {
            SubDomain::Images => "images.",
            SubDomain::Root => "",
            SubDomain::Api => "",
        }
    }
}

/// How the songs of an artist are ordered.
#[derive(Debug, Clone, Copy, PartialEq, Eq)]
pub enum SortMode {
    Title,
    Popularity,
}

impl SortMode {
    /// The query parameter that asks for this order.
    pub fn to_query(&self) -> (r: (&'static str, &'static str))
        ensures
            r.0@ == "sort"@,
            r.1@ == match *self {
                SortMode::Title => "title"@,
                SortMode::Popularity => "popularity"@,
            },
    {
        (
            "sort",
            match self {
                SortMode::Title => "title",
                SortMode::Popularity => "popularity",
            },
        )
    }
}

/// Names what `urlencoding::encode` makes of a text.
pub uninterp spec fn url_encoded(s: Seq<char>) -> Seq<char>;

/// A character that percent-encoding keeps as it is.
pub open spec fn is_unreserved(c: char) -> bool {
    ('0' <= c <= '9') || ('A' <= c <= 'Z') || ('a' <= c <= 'z') || c == '-' || c == '.' || c == '_' || c == '~'
}

/// An uppercase hexadecimal digit.
pub open spec fn hex_digit(d: int) -> char {
    if d < 10 { ((d + 0x30) as u32) as char } else { ((d - 10 + 0x41) as u32) as char }
}

/// Percent-encoding of an ASCII text: unreserved characters stay, each other one
/// becomes `%` and its code in two uppercase hexadecimal digits.
pub open spec fn ascii_url_encoded(s: Seq<char>) -> Seq<char>
    decreases s.len(),
{
    if s.len() == 0 {
        Seq::empty()
    } else {
        let c = s.last();
        let piece = if is_unreserved(c) {
            seq![c]
        } else {
            seq!['%', hex_digit((c as u32 / 16) as int), hex_digit((c as u32 % 16) as int)]
        };
        ascii_url_encoded(s.drop_last()) + piece
    }
}

/// Relies on `urlencoding::encode`: the text percent-encoded for a URL. Each byte of
/// the text's UTF-8 form is kept where it is an ASCII letter or digit or one of
/// `-._~`, and written as `%` with two uppercase hexadecimal digits otherwise.
#[verifier::external_body]
fn encode_component(s: &str) -> (r: String)
    ensures
        r@ == url_encoded(s@),
        (forall|i: int| 0 <= i < s@.len() ==> (#[trigger] s@[i]) as u32 <= 0x7f) ==> r@ == ascii_url_encoded(s@),
{
    urlencoding::encode(s).into_owned()
}

/// The query parameters, each as `&name=value` with the value encoded.
pub open spec fn query_text(queries: Seq<(&str, &str)>) -> Seq<char>
    decreases queries.len(),
{
    if queries.len() == 0 {
        Seq::empty()
    } else {
        query_text(queries.drop_last()) + "&"@ + queries.last().0@ + "="@ + url_encoded(queries.last().1@)
    }
}

pub open spec fn trim_leading_slashes(s: Seq<char>) -> Seq<char>
    decreases s.len(),
{
    if s.len() > 0 && s[0] == '/' {
        trim_leading_slashes(s.skip(1))
    } else {
        s
    }
}

/// The URL of a request to the site. API calls go under `api/`, which needs no key;
/// text comes back plain.
pub open spec fn request_url_of(subdomain: SubDomain, path: Seq<char>, queries: Option<Seq<(&str, &str)>>) -> Seq<char> {
    let full = if subdomain == SubDomain::Api { "api/"@ + path } else { path };
    let q = match queries {
        Some(qs) => query_text(qs),
        None => Seq::empty(),
    };
    "https://"@ + subdomain.prefix() + "genius.com/"@ + trim_leading_slashes(full) + "?text_format=plain"@ + q
}

/// Builds the URL of a request to the site, as `request_url_of` says.
pub fn request_url(subdomain: SubDomain, path: &str, queries: Option<Vec<(&str, &str)>>) -> (r: String)
    ensures
        r@ == request_url_of(subdomain, path@, match queries {
            Some(qs) => Some(qs@),
            None => None,
        }),
{
    let mut query_str = String::new();
    match &queries {
        Some(qs) => {
            let mut i: usize = 0;
            proof {
                assert(qs@.take(0) =~= Seq::<(&str, &str)>::empty());
            }
            while i < qs.len()
                invariant
                    0 <= i <= qs@.len(),
                    query_str@ == query_text(qs@.take(i as int)),
                decreases qs@.len() - i,
            {
                proof {
                    assert(qs@.take(i + 1).drop_last() =~= qs@.take(i as int));
                }
                let (name, value) = qs[i];
                query_str.append("&");
                query_str.append(name);
                query_str.append("=");
                let encoded = encode_component(value);
                query_str.append(encoded.as_str());
                i = i + 1;
            }
            proof {
                assert(qs@.take(qs@.len() as int) =~= qs@);
            }
        },
        None => {},
    }
    let mut full = if matches!(subdomain, SubDomain::Api) {
        String::from_str("api/")
    } else {
        String::new()
    };
    full.append(path);
    let n = full.as_str().unicode_len();
    let mut start: usize = 0;
    let ghost f = full@;
    proof {
        assert(f.skip(0) =~= f);
    }
    while start < n && full.as_str().get_char(start) == '/'
        invariant
            n == f.len(),
            f == full@,
            0 <= start <= n,
            trim_leading_slashes(f.skip(start as int)) == trim_leading_slashes(f),
        decreases n - start,
    {
        proof {
            assert(f.skip(start as int).skip(1) =~= f.skip(start + 1));
        }
        start = start + 1;
    }
    let trimmed = full.as_str().substring_char(start, n);
    proof {
        assert(trimmed@ =~= f.skip(start as int));
        assert(trim_leading_slashes(trimmed@) == trimmed@);
        assert(f =~= if subdomain == SubDomain::Api { "api/"@ + path@ } else { path@ });
    }
    let mut url = String::from_str("https://");
    url.append(subdomain.value());
    url.append("genius.com/");
    url.append(trimmed);
    url.append("?text_format=plain");
    url.append(query_str.as_str());
    url
}

/// A song as the site describes it.
#[derive(Debug, PartialEq, Eq)]
pub struct GeniusSong {
    pub id: u32,
    pub title: String,
    pub path: String,
    pub header_image_url: String,
    pub release_date_for_display: Option<String>,
    pub song_art_image_thumbnail_url: String,
    pub album: Option<GeniusAlbum>,
    pub stats: GeniusStats,
    pub primary_artist: GeniusArtist,
}

#[derive(Debug, PartialEq, Eq)]
pub struct GeniusAlbum {
    pub name: String,
    pub id: u32,
    pub url: String,
    pub cover_art_url: String,
    pub release_date_for_display: Option<String>,
    pub tracks: Option<Vec<GeniusSong>>,
    pub artist: GeniusArtist,
}

#[derive(Debug, Clone, Copy, PartialEq, Eq)]
pub struct GeniusStats {
    pub pageviews: Option<i32>,
}

#[derive(Debug, PartialEq, Eq)]
pub struct GeniusArtist {
    pub id: u32,
    pub name: String,
    pub alternate_names: Option<Vec<String>>,
    pub image_url: String,
    pub url: String,
    pub description: Option<GeniusDescription>,
    pub popular_songs: Option<Vec<GeniusSong>>,
    pub facebook_name: Option<String>,
    pub instagram_name: Option<String>,
    pub twitter_name: Option<String>,
}

/// An artist's description, as HTML.
#[derive(Debug, Clone, PartialEq, Eq)]
pub struct GeniusDescription {
    pub html: String,
}

#[derive(Debug, PartialEq, Eq)]
pub struct GeniusSearchRequest {
    pub response: GeniusSearchResponse,
}

#[derive(Debug, PartialEq, Eq)]
pub struct GeniusSearchResponse {
    pub hits: Vec<GeniusHit>,
}

#[derive(Debug, PartialEq, Eq)]
pub struct GeniusHit {
    pub result: GeniusSong,
}

#[derive(Debug, PartialEq, Eq)]
pub struct GeniusSongRequest {
    pub response: GeniusSongResponse,
}

#[derive(Debug, PartialEq, Eq)]
pub struct GeniusSongResponse {
    pub song: GeniusSong,
}

#[derive(Debug, PartialEq, Eq)]
pub struct GeniusSongsRequest {
    pub response: GeniusSongsResponse,
}

#[derive(Debug, PartialEq, Eq)]
pub struct GeniusSongsResponse {
    pub songs: Vec<GeniusSong>,
}

#[derive(Debug, PartialEq, Eq)]
pub struct GeniusAlbumResponse {
    pub album: GeniusAlbum,
}

#[derive(Debug, PartialEq, Eq)]
pub struct GeniusTracksRequest {
    pub response: GeniusTracksResponse,
}

#[derive(Debug, PartialEq, Eq)]
pub struct GeniusTracksResponse {
    pub tracks: Vec<GeniusTrack>,
}

#[derive(Debug, PartialEq, Eq)]
pub struct GeniusTrack {
    pub song: GeniusSong,
}

#[derive(Debug, PartialEq, Eq)]
pub struct GeniusArtistResponse {
    pub artist: GeniusArtist,
}

/// A link to one of an artist's social accounts.
#[derive(Debug, Clone, PartialEq, Eq)]
pub struct ArtistSocial {
    /// The account name as the site gives it.
    pub name_raw: String,
    /// The name as shown: with an `@` where the network writes it so.
    pub name_formatted: String,
    /// The network's name, which picks the icon.
    pub brand: &'static str,
}

/// The social link for an account name: none where it is absent or empty.
pub open spec fn social_of(name: Option<String>, at: bool, brand: Seq<char>) -> Seq<(Seq<char>, Seq<char>, Seq<char>)> {
    match name {
        Some(n) => if n@.len() > 0 {
            seq![(n@, if at { "@"@ + n@ } else { n@ }, brand)]
        } else {
            Seq::empty()
        },
        None => Seq::empty(),
    }
}

pub open spec fn social_view(s: ArtistSocial) -> (Seq<char>, Seq<char>, Seq<char>) {
    (s.name_raw@, s.name_formatted@, s.brand@)
}

fn push_social(out: &mut Vec<ArtistSocial>, name: &Option<String>, at: bool, brand: &'static str)
    ensures
        final(out)@.map_values(|s: ArtistSocial| social_view(s)) == old(out)@.map_values(|s: ArtistSocial| social_view(s))
            + social_of(*name, at, brand@),
{
    let ghost before = out@;
    match name {
        Some(n) => {
            if n.as_str().unicode_len() > 0 {
                let formatted = if at {
                    let mut f = String::from_str("@");
                    f.append(n.as_str());
                    f
                } else {
                    n.clone()
                };
                out.push(ArtistSocial { name_raw: n.clone(), name_formatted: formatted, brand });
                assert(out@.map_values(|s: ArtistSocial| social_view(s)) =~= before.map_values(|s: ArtistSocial| social_view(s))
                    + social_of(*name, at, brand@));
            } else {
                assert(out@.map_values(|s: ArtistSocial| social_view(s)) =~= before.map_values(|s: ArtistSocial| social_view(s))
                    + social_of(*name, at, brand@));
            }
        },
        None => {
            assert(out@.map_values(|s: ArtistSocial| social_view(s)) =~= before.map_values(|s: ArtistSocial| social_view(s))
                + social_of(*name, at, brand@));
        },
    }
}

impl GeniusArtist {
    /// The artist's social accounts that have a name: Facebook as it is, Instagram and
    /// Twitter with an `@`, in that order.
    pub fn socials(&self) -> (r: Vec<ArtistSocial>)
        ensures
            r@.map_values(|s: ArtistSocial| social_view(s)) == social_of(self.facebook_name, false, "facebook"@)
                + social_of(self.instagram_name, true, "instagram"@) + social_of(self.twitter_name, true, "twitter"@),
    {
        let mut socials: Vec<ArtistSocial> = Vec::new();
        assert(socials@.map_values(|s: ArtistSocial| social_view(s)) =~= Seq::empty());
        push_social(&mut socials, &self.facebook_name, false, "facebook");
        push_social(&mut socials, &self.instagram_name, true, "instagram");
        push_social(&mut socials, &self.twitter_name, true, "twitter");
        assert(Seq::<(Seq<char>, Seq<char>, Seq<char>)>::empty() + social_of(self.facebook_name, false, "facebook"@)
            =~= social_of(self.facebook_name, false, "facebook"@));
        socials
    }
}

} // verus!
