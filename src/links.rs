use regex::Regex;
use vstd::prelude::*;

verus! {

/// Where the site serves its images.
pub const IMAGE_URL: &'static str = "https://images.genius.com/";

/// An older host of the same images.
pub const IMAGE_ALT_URL: &'static str = "https://images.rapgenius.com/";

/// The path of this proxy's image endpoint, to which an image URL is appended.
pub const IMAGE_PROXY_PATH: &'static str = "/api/image?url=";

pub const YOUTUBE_URL: &'static str = "youtube.com/";

pub const YOUTUBE_NOCOOKIE_URL: &'static str = "youtube-nocookie.com/";

/// Absolute links back to the site itself: scheme, optional subdomain, domain.
pub const SITE_LINK_PATTERN: &'static str = r"https?://\w*.?genius\.com";

/// `s` with every occurrence of `from` replaced by `to`, scanning from the left and
/// never letting two occurrences overlap.
pub open spec fn replaced(s: Seq<char>, from: Seq<char>, to: Seq<char>) -> Seq<char>
    decreases s.len(),
{
    if from.len() == 0 || s.len() < from.len() {
        s
    } else if s.take(from.len() as int) == from {
        to + replaced(s.skip(from.len() as int), from, to)
    } else {
        seq![s[0]] + replaced(s.skip(1), from, to)
    }
}

/// Relies on `str::replace`: every match of `from`, found left to right without
/// overlaps, is replaced by `to`.
#[verifier::external_body]
fn replace_all(s: &str, from: &str, to: &str) -> (r: String)
    requires
        from@.len() > 0,
    ensures
        r@ == replaced(s@, from@, to@),
{
    s.replace(from, to)
}

/// Names whether `Regex::new` accepts a pattern.
pub uninterp spec fn regex_compiles(pattern: Seq<char>) -> bool;

/// Names what `Regex::replace_all` with an empty replacement leaves of a text.
pub uninterp spec fn regex_removed(pattern: Seq<char>, s: Seq<char>) -> Seq<char>;

/// Relies on regex's `Regex::new`, which fails only on a pattern that it cannot
/// compile, and on `Regex::replace_all` with an empty replacement, which removes every
/// match.
#[verifier::external_body]
fn remove_matches(pattern: &str, s: &str) -> (r: Option<String>)
    ensures
        r is Some <==> regex_compiles(pattern@),
        r matches Some(t) ==> t@ == regex_removed(pattern@, s@),
{
    Regex::new(pattern).ok().map(|re| re.replace_all(s, "").into_owned())
}

/// The image proxy's URL for the site's images.
pub open spec fn image_proxy_url() -> Seq<char> {
    IMAGE_PROXY_PATH@ + IMAGE_URL@
}

/// Image links go through the proxy, and YouTube embeds to its no-cookie domain.
pub open spec fn proxied(s: Seq<char>) -> Seq<char> {
    replaced(
        replaced(replaced(s, IMAGE_URL@, image_proxy_url()), IMAGE_ALT_URL@, image_proxy_url()),
        YOUTUBE_URL@,
        YOUTUBE_NOCOOKIE_URL@,
    )
}

/// The whole rewrite: after `proxied`, links back to the site lose their scheme and
/// host, which leaves paths relative to this proxy.
pub open spec fn rewritten(s: Seq<char>) -> Seq<char> {
    if regex_compiles(SITE_LINK_PATTERN@) {
        regex_removed(SITE_LINK_PATTERN@, proxied(s))
    } else {
        proxied(s)
    }
}

/// Rewrites the links in a fragment of the site's HTML so that it can be shown here:
/// images through the image proxy, YouTube without cookies, the site's own links
/// relative to this proxy.
pub fn rewrite_links(html: &str) -> (r: String)
    ensures
        r@ == rewritten(html@),
{
    proof {
        reveal_strlit("https://images.genius.com/");
        reveal_strlit("https://images.rapgenius.com/");
        reveal_strlit("youtube.com/");
    }
    let mut proxy = String::from_str(IMAGE_PROXY_PATH);
    proxy.append(IMAGE_URL);
    let step1 = replace_all(html, IMAGE_URL, proxy.as_str());
    let step2 = replace_all(step1.as_str(), IMAGE_ALT_URL, proxy.as_str());
    let step3 = replace_all(step2.as_str(), YOUTUBE_URL, YOUTUBE_NOCOOKIE_URL);
    match remove_matches(SITE_LINK_PATTERN, step3.as_str()) {
        Some(r) => r,
        None => step3,
    }
}

/// `p` occurs in `s` at `i`.
pub open spec fn occurs_at(s: Seq<char>, p: Seq<char>, i: int) -> bool {
    0 <= i && i + p.len() <= s.len() && s.subrange(i, i + p.len()) == p
}

/// `p` occurs nowhere in `s`.
pub open spec fn free_of(s: Seq<char>, p: Seq<char>) -> bool {
    forall|i: int| !#[trigger] occurs_at(s, p, i)
}

/// Replacing a pattern that does not occur leaves the text as it is.
pub proof fn lemma_replaced_absent(s: Seq<char>, from: Seq<char>, to: Seq<char>)
    requires
        from.len() > 0,
        free_of(s, from),
    ensures
        replaced(s, from, to) == s,
    decreases s.len(),
{
    if s.len() >= from.len() {
        assert(!occurs_at(s, from, 0));
        assert(s.take(from.len() as int) =~= s.subrange(0, from.len() as int));
        let rest = s.skip(1);
        assert forall|i: int| !#[trigger] occurs_at(rest, from, i) by {
            if occurs_at(rest, from, i) {
                assert(rest.subrange(i, i + from.len()) =~= s.subrange(i + 1, i + 1 + from.len()));
                assert(occurs_at(s, from, i + 1));
            }
        }
        lemma_replaced_absent(rest, from, to);
        assert(seq![s[0]] + rest =~= s);
    }
}

/// Rewriting a rewritten text again changes nothing, where that text holds none of the
/// URLs that the image and YouTube rules replace and the site-link removal finds
/// nothing more in it.
pub proof fn lemma_rewrite_stable(s: Seq<char>)
    requires
        free_of(rewritten(s), IMAGE_URL@),
        free_of(rewritten(s), IMAGE_ALT_URL@),
        free_of(rewritten(s), YOUTUBE_URL@),
        regex_compiles(SITE_LINK_PATTERN@) ==> regex_removed(SITE_LINK_PATTERN@, rewritten(s)) == rewritten(s),
    ensures
        rewritten(rewritten(s)) == rewritten(s),
{
    reveal_strlit("https://images.genius.com/");
    reveal_strlit("https://images.rapgenius.com/");
    reveal_strlit("youtube.com/");
    let t = rewritten(s);
    lemma_replaced_absent(t, IMAGE_URL@, image_proxy_url());
    lemma_replaced_absent(t, IMAGE_ALT_URL@, image_proxy_url());
    lemma_replaced_absent(t, YOUTUBE_URL@, YOUTUBE_NOCOOKIE_URL@);
    assert(proxied(t) == t);
}

} // verus!
