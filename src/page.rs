use vstd::prelude::*;

use crate::lyrics::{
    blank_free_ends, lemma_no_blank_at_verse_ends, lemma_no_text_gives_placeholder, parse_lyrics, parsed_verses,
    placeholder_verse, referenced_ids, verses_model, verses_unresolved_in, LyricNode, Verse,
};
use crate::utils::{bounded_decimal, parse_digits};

verus! {

/// A node of a parsed page, with what the lyrics parser reads of it.
#[derive(Debug, Clone, PartialEq, Eq)]
pub enum HtmlNode {
    /// An element: its tag name and its attributes, in order.
    Element(String, Vec<(String, String)>),
    Text(String),
    /// A comment, a doctype or another kind of node.
    Other,
}

/// A node met while walking a lyrics container in document order.
#[derive(Debug, Clone, PartialEq, Eq)]
pub struct DomNode {
    pub node: HtmlNode,
    /// Whether the node roots a region left out of the lyrics.
    pub excluded: bool,
    /// How many nodes its subtree holds, itself included.
    pub subtree_len: usize,
}

/// Elements holding the lyrics.
pub const LYRICS_SELECTOR: &'static str = "div[data-lyrics-container=true]";

/// Regions inside the lyrics containers that are not lyrics (a summary, for one).
pub const EXCLUDED_SELECTOR: &'static str = "div[data-exclude-from-selection]";

/// The meta tag that carries the song's ID.
pub const SONG_ID_SELECTOR: &'static str = "meta[property='twitter:app:url:iphone']";

/// Tags that may carry the data of a page as JSON.
pub const EMBEDDED_DATA_SELECTOR: &'static str = "meta[content]";

/// How the song ID is written in that tag's content.
pub const SONG_ID_PREFIX: &'static str = "genius://songs/";

/// The value of the first attribute called `name`.
pub open spec fn attr_value(attrs: Seq<(String, String)>, name: Seq<char>) -> Option<Seq<char>>
    decreases attrs.len(),
{
    if attrs.len() == 0 {
        None
    } else if attrs[0].0@ == name {
        Some(attrs[0].1@)
    } else {
        attr_value(attrs.skip(1), name)
    }
}

/// Where the first `/` of `s` stands.
pub open spec fn first_slash(s: Seq<char>) -> Option<int>
    decreases s.len(),
{
    if s.len() == 0 {
        None
    } else if s[0] == '/' {
        Some(0)
    } else {
        match first_slash(s.skip(1)) {
            Some(j) => Some(j + 1),
            None => None,
        }
    }
}

pub const I32_MAX: u32 = 0x7fff_ffff;

/// The annotation an anchor links to: its `href` is `/<digits>/<anything>`, with
/// exactly one leading slash, and the digits fit an `i32`.
pub open spec fn annotation_id_of(href: Seq<char>) -> Option<i32> {
    if href.len() > 0 && href[0] == '/' {
        let s = href.skip(1);
        match first_slash(s) {
            Some(j) => match bounded_decimal(s.take(j), I32_MAX as nat) {
                Some(v) => Some(v as i32),
                None => None,
            },
            None => None,
        }
    } else {
        None
    }
}

/// What the lyrics parser makes of a node.
pub open spec fn classify(node: HtmlNode) -> LyricNode {
    match node {
        HtmlNode::Element(name, attrs) => if name@ == "br"@ {
            LyricNode::LineBreak
        } else if name@ == "a"@ {
            match attr_value(attrs@, "href"@) {
                Some(href) => match annotation_id_of(href) {
                    Some(id) => LyricNode::AnnotationStart(id),
                    None => LyricNode::Ignored,
                },
                None => LyricNode::Ignored,
            }
        } else if name@ == "span"@ && attr_value(attrs@, "tabindex"@) == Some("0"@) {
            LyricNode::AnnotationEnd
        } else {
            LyricNode::Ignored
        },
        HtmlNode::Text(t) => LyricNode::Text(t),
        HtmlNode::Other => LyricNode::Ignored,
    }
}

/// The nodes that the parser reads, with the excluded subtrees left out.
pub open spec fn kept_nodes(nodes: Seq<DomNode>) -> Seq<LyricNode>
    decreases nodes.len(),
{
    if nodes.len() == 0 {
        Seq::empty()
    } else if nodes[0].excluded {
        let k = if nodes[0].subtree_len == 0 {
            1
        } else if nodes[0].subtree_len > nodes.len() {
            nodes.len() as int
        } else {
            nodes[0].subtree_len as int
        };
        kept_nodes(nodes.skip(k))
    } else {
        seq![classify(nodes[0].node)] + kept_nodes(nodes.skip(1))
    }
}

fn text_is(s: &String, lit: &str) -> (r: bool)
    ensures
        r == (s@ == lit@),
{
    *s == String::from_str(lit)
}

fn find_attr<'a>(attrs: &'a Vec<(String, String)>, name: &str) -> (r: Option<&'a String>)
    ensures
        r matches Some(v) ==> attr_value(attrs@, name@) == Some(v@),
        r is None ==> attr_value(attrs@, name@) is None,
{
    let mut i: usize = 0;
    proof {
        assert(attrs@.skip(0) =~= attrs@);
    }
    while i < attrs.len()
        invariant
            0 <= i <= attrs@.len(),
            attr_value(attrs@.skip(i as int), name@) == attr_value(attrs@, name@),
        decreases attrs@.len() - i,
    {
        proof {
            assert(attrs@.skip(i as int).skip(1) =~= attrs@.skip(i + 1));
            assert(attrs@.skip(i as int)[0] == attrs@[i as int]);
        }
        if text_is(&attrs[i].0, name) {
            return Some(&attrs[i].1);
        }
        i = i + 1;
    }
    None
}

proof fn lemma_first_slash_found(s: Seq<char>, j: int)
    requires
        0 <= j < s.len(),
        s[j] == '/',
        forall|l: int| 0 <= l < j ==> s[l] != '/',
    ensures
        first_slash(s) == Some(j),
    decreases j,
{
    if j > 0 {
        lemma_first_slash_found(s.skip(1), j - 1);
    }
}

proof fn lemma_first_slash_none(s: Seq<char>)
    requires
        forall|l: int| 0 <= l < s.len() ==> s[l] != '/',
    ensures
        first_slash(s) is None,
    decreases s.len(),
{
    if s.len() > 0 {
        lemma_first_slash_none(s.skip(1));
    }
}

/// The annotation ID that an anchor's `href` links to, as `annotation_id_of` says.
pub fn annotation_id(href: &str) -> (r: Option<i32>)
    ensures
        r == annotation_id_of(href@),
{
    let n = href.unicode_len();
    if n == 0 || href.get_char(0) != '/' {
        return None;
    }
    let start: usize = 1;
    let ghost s = href@.skip(1);
    let mut j: usize = start;
    while j < n && href.get_char(j) != '/'
        invariant
            n == href@.len(),
            start <= j <= n,
            s == href@.skip(start as int),
            forall|l: int| 0 <= l < j - start ==> s[l] != '/',
        decreases n - j,
    {
        j = j + 1;
    }
    if j == n {
        proof {
            lemma_first_slash_none(s);
        }
        return None;
    }
    proof {
        lemma_first_slash_found(s, j - start);
    }
    let digits = href.substring_char(start, j);
    proof {
        assert(digits@ =~= s.take(j - start));
    }
    match parse_digits(digits, I32_MAX) {
        Some(v) => Some(v as i32),
        None => None,
    }
}

/// What the lyrics parser makes of a node, as `classify` says.
pub fn classify_node(node: &HtmlNode) -> (r: LyricNode)
    ensures
        r == classify(*node),
{
    match node {
        HtmlNode::Element(name, attrs) => {
            if text_is(name, "br") {
                LyricNode::LineBreak
            } else if text_is(name, "a") {
                match find_attr(attrs, "href") {
                    Some(href) => match annotation_id(href.as_str()) {
                        Some(id) => LyricNode::AnnotationStart(id),
                        None => LyricNode::Ignored,
                    },
                    None => LyricNode::Ignored,
                }
            } else if text_is(name, "span") {
                match find_attr(attrs, "tabindex") {
                    Some(t) => if text_is(t, "0") {
                        LyricNode::AnnotationEnd
                    } else {
                        LyricNode::Ignored
                    },
                    None => LyricNode::Ignored,
                }
            } else {
                LyricNode::Ignored
            }
        },
        HtmlNode::Text(t) => LyricNode::Text(t.clone()),
        HtmlNode::Other => LyricNode::Ignored,
    }
}

/// The nodes that the lyrics parser reads, in order: excluded subtrees are skipped
/// whole and every other node is classified.
pub fn lyric_nodes(nodes: &Vec<DomNode>) -> (r: Vec<LyricNode>)
    ensures
        r@ == kept_nodes(nodes@),
{
    let mut out: Vec<LyricNode> = Vec::new();
    let mut i: usize = 0;
    proof {
        assert(nodes@.skip(0) =~= nodes@);
        assert(out@ + kept_nodes(nodes@) =~= kept_nodes(nodes@));
    }
    while i < nodes.len()
        invariant
            0 <= i <= nodes@.len(),
            out@ + kept_nodes(nodes@.skip(i as int)) == kept_nodes(nodes@),
        decreases nodes@.len() - i,
    {
        let ghost rest = nodes@.skip(i as int);
        proof {
            assert(rest[0] == nodes@[i as int]);
        }
        if nodes[i].excluded {
            let len = nodes[i].subtree_len;
            let k: usize = if len == 0 {
                1
            } else if len > nodes.len() - i {
                nodes.len() - i
            } else {
                len
            };
            proof {
                assert(rest.skip(k as int) =~= nodes@.skip(i + k));
            }
            i = i + k;
        } else {
            let c = classify_node(&nodes[i].node);
            proof {
                assert(rest.skip(1) =~= nodes@.skip(i + 1));
                assert(out@.push(c) + kept_nodes(nodes@.skip(i + 1)) =~= out@ + kept_nodes(rest));
            }
            out.push(c);
            i = i + 1;
        }
    }
    proof {
        assert(nodes@.skip(i as int) =~= Seq::<DomNode>::empty());
        assert(out@ + Seq::<LyricNode>::empty() =~= out@);
    }
    out
}

/// Why a page could not be read.
#[derive(Debug, Clone, Copy, PartialEq, Eq)]
pub enum PageError {
    /// The page has no meta tag with the song's ID.
    MissingSongIdTag,
    /// That tag has no content.
    MissingSongIdContent,
    /// Its content is not a song ID.
    InvalidSongId,
    /// The page carries no JSON data.
    MissingEmbeddedData,
}

impl PageError {
    pub fn message(&self) -> (r: String) {
        match self {
            PageError::MissingSongIdTag => String::from_str("Failed to find meta tag with song ID"),
            PageError::MissingSongIdContent => String::from_str("Failed to find content attribute"),
            PageError::InvalidSongId => String::from_str("Invalid song ID"),
            PageError::MissingEmbeddedData => String::from_str("Failed to extract JSON data"),
        }
    }
}

/// Scrapes the lyrics from the nodes of a page's lyrics containers, in document
/// order: its verses, and the IDs of the annotations that tag their parts.
///
/// No verse begins or ends with a blank line, every part holds at most a pending
/// annotation ID, and the IDs are those of the parts, without repeats.
pub fn scrape_lyrics(nodes: &Vec<DomNode>) -> (r: (Vec<Verse>, Vec<i32>))
    ensures
        verses_model(r.0@) == parsed_verses(kept_nodes(nodes@)),
        r.1@ == referenced_ids(kept_nodes(nodes@)),
        forall|i: int| 0 <= i < r.0@.len() ==> blank_free_ends(#[trigger] verses_model(r.0@)[i]),
        verses_unresolved_in(verses_model(r.0@), r.1@),
        r.1@.no_duplicates(),
{
    let kept = lyric_nodes(nodes);
    let parsed = parse_lyrics(&kept);
    proof {
        lemma_no_blank_at_verse_ends(kept@);
    }
    parsed
}

/// The song ID in the content of the song-ID tag: `genius://songs/` and a `u32`.
pub open spec fn song_id_of(content: Seq<char>) -> Option<u32> {
    let prefix = SONG_ID_PREFIX@;
    if content.len() >= prefix.len() && content.take(prefix.len() as int) == prefix {
        u32_text_value(content.skip(prefix.len() as int))
    } else {
        None
    }
}

/// A `u32` written in decimal: an optional `+`, then digits, with a value that fits.
pub open spec fn u32_text_value(s: Seq<char>) -> Option<u32> {
    let digits = if s.len() > 0 && s[0] == '+' { s.skip(1) } else { s };
    match bounded_decimal(digits, 0xffff_ffff) {
        Some(v) => Some(v as u32),
        None => None,
    }
}

/// Reads the song ID from the content of the song-ID tag, as `song_id_of` says.
pub fn song_id_from_content(content: &str) -> (r: Option<u32>)
    ensures
        r == song_id_of(content@),
{
    let prefix = SONG_ID_PREFIX;
    let n = content.unicode_len();
    let p = prefix.unicode_len();
    if n < p {
        return None;
    }
    let head = content.substring_char(0, p);
    if String::from_str(head) != String::from_str(prefix) {
        return None;
    }
    let rest = content.substring_char(p, n);
    proof {
        assert(head@ =~= content@.take(p as int));
        assert(rest@ =~= content@.skip(p as int));
    }
    let m = rest.unicode_len();
    let digits = if m > 0 && rest.get_char(0) == '+' { rest.substring_char(1, m) } else { rest };
    proof {
        assert(m > 0 && rest@[0] == '+' ==> digits@ =~= rest@.skip(1));
    }
    match parse_digits(digits, 0xffff_ffff) {
        Some(v) => Some(v),
        None => None,
    }
}

/// Finds the song's ID in its lyrics page, given the `content` attributes of the
/// song-ID tags in order (`None` for a tag without one): the first tag decides.
pub fn get_song_id(contents: &Vec<Option<String>>) -> (r: Result<u32, PageError>)
    ensures
        contents@.len() == 0 ==> r == Err::<u32, PageError>(PageError::MissingSongIdTag),
        contents@.len() > 0 && contents@[0] is None ==> r == Err::<u32, PageError>(PageError::MissingSongIdContent),
        contents@.len() > 0 && contents@[0] is Some ==> r == match song_id_of(contents@[0]->Some_0@) {
            Some(id) => Ok::<u32, PageError>(id),
            None => Err(PageError::InvalidSongId),
        },
{
    if contents.len() == 0 {
        return Err(PageError::MissingSongIdTag);
    }
    match &contents[0] {
        None => Err(PageError::MissingSongIdContent),
        Some(content) => match song_id_from_content(content.as_str()) {
            Some(id) => Ok(id),
            None => Err(PageError::InvalidSongId),
        },
    }
}

/// Text that starts like a JSON object with a key.
pub open spec fn starts_json_object(s: Seq<char>) -> bool {
    s.len() >= 2 && s[0] == '{' && s[1] == '"'
}

pub open spec fn holds_json(c: Option<String>) -> bool {
    c matches Some(t) && starts_json_object(t@)
}

/// The first of the contents that holds JSON.
pub fn first_json_object(contents: &Vec<Option<String>>) -> (r: Option<usize>)
    ensures
        r matches Some(i) ==> i < contents@.len() && holds_json(contents@[i as int])
            && forall|j: int| 0 <= j < i ==> !holds_json(#[trigger] contents@[j]),
        r is None ==> forall|j: int| 0 <= j < contents@.len() ==> !holds_json(#[trigger] contents@[j]),
{
    let mut i: usize = 0;
    while i < contents.len()
        invariant
            0 <= i <= contents@.len(),
            forall|j: int| 0 <= j < i ==> !holds_json(#[trigger] contents@[j]),
        decreases contents@.len() - i,
    {
        match &contents[i] {
            Some(t) => {
                let s = t.as_str();
                if s.unicode_len() >= 2 && s.get_char(0) == '{' && s.get_char(1) == '"' {
                    return Some(i);
                }
            },
            None => {},
        }
        i = i + 1;
    }
    None
}

/// The JSON data that a page embeds, given the `content` attributes of its tags in
/// order: the first that holds JSON.
pub fn embedded_json(contents: &Vec<Option<String>>) -> (r: Result<String, PageError>)
    ensures
        r matches Ok(t) ==> exists|i: int|
            0 <= i < contents@.len() && #[trigger] contents@[i] == Some(t) && holds_json(contents@[i])
                && forall|j: int| 0 <= j < i ==> !holds_json(#[trigger] contents@[j]),
        r is Err <==> forall|j: int| 0 <= j < contents@.len() ==> !holds_json(#[trigger] contents@[j]),
        r is Err ==> r == Err::<String, PageError>(PageError::MissingEmbeddedData),
{
    match first_json_object(contents) {
        Some(i) => match &contents[i] {
            Some(t) => Ok(t.clone()),
            None => Err(PageError::MissingEmbeddedData),
        },
        None => Err(PageError::MissingEmbeddedData),
    }
}

proof fn lemma_kept_without_text(nodes: Seq<DomNode>)
    requires
        forall|i: int| 0 <= i < nodes.len() ==> !(#[trigger] nodes[i].node is Text),
    ensures
        forall|j: int| 0 <= j < kept_nodes(nodes).len() ==> !(#[trigger] kept_nodes(nodes)[j] is Text),
    decreases nodes.len(),
{
    if nodes.len() > 0 {
        let k = if nodes[0].subtree_len == 0 {
            1
        } else if nodes[0].subtree_len > nodes.len() {
            nodes.len() as int
        } else {
            nodes[0].subtree_len as int
        };
        let skip = if nodes[0].excluded { k } else { 1 };
        assert forall|i: int| 0 <= i < nodes.skip(skip).len() implies !(#[trigger] nodes.skip(skip)[i].node is Text) by {
            assert(nodes.skip(skip)[i] == nodes[i + skip]);
        }
        lemma_kept_without_text(nodes.skip(skip));
        if !nodes[0].excluded {
            let rest = kept_nodes(nodes.skip(1));
            assert forall|j: int| 0 <= j < kept_nodes(nodes).len() implies !(#[trigger] kept_nodes(nodes)[j] is Text) by {
                if j > 0 {
                    assert(kept_nodes(nodes)[j] == rest[j - 1]);
                }
            }
        }
    }
}

/// Lyrics containers that hold no text, outside excluded regions or in them, read as
/// the single placeholder verse, with no annotation IDs.
pub proof fn lemma_page_without_text(nodes: Seq<DomNode>)
    requires
        forall|i: int| 0 <= i < nodes.len() ==> !(#[trigger] nodes[i].node is Text),
    ensures
        parsed_verses(kept_nodes(nodes)) == seq![placeholder_verse()],
        referenced_ids(kept_nodes(nodes)).len() == 0,
{
    lemma_kept_without_text(nodes);
    lemma_no_text_gives_placeholder(kept_nodes(nodes));
}

} // verus!
