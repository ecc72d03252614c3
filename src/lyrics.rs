use vstd::prelude::*;

verus! {

/// An annotation as shown beside the lyrics.
#[derive(Debug, Clone, PartialEq, Eq)]
pub struct Annotation {
    pub id: i32,
    /// The quoted fragment of the lyrics.
    pub quote: String,
    /// The annotation's HTML, with its links rewritten.
    pub body: String,
    pub votes: i32,
}

impl Annotation {
    /// A copy that owns its own strings.
    pub fn copy(&self) -> (r: Annotation)
        ensures
            r == *self,
    {
        Annotation { id: self.id, quote: self.quote.clone(), body: self.body.clone(), votes: self.votes }
    }
}

/// What a lyric part knows of its annotation: only the ID until the annotations
/// are merged in, then the annotation itself.
#[derive(Debug, Clone, PartialEq, Eq)]
pub enum AnnotationRef {
    Pending(i32),
    Resolved(Annotation),
}

impl AnnotationRef {
    pub fn copy(&self) -> (r: AnnotationRef)
        ensures
            r == *self,
    {
        match self {
            AnnotationRef::Pending(id) => AnnotationRef::Pending(*id),
            AnnotationRef::Resolved(a) => AnnotationRef::Resolved(a.copy()),
        }
    }
}

/// A piece of text of one line, with the annotation it belongs to.
#[derive(Debug, Clone, PartialEq, Eq)]
pub struct LyricPart {
    pub text: String,
    pub annotation: Option<AnnotationRef>,
}

/// A line: text made of parts, or a visible blank line.
#[derive(Debug, Clone, PartialEq, Eq)]
pub enum Lyric {
    Text(Vec<LyricPart>),
    Blank,
}

/// A titled group of lines, such as `[Chorus]`.
#[derive(Debug, Clone, PartialEq, Eq)]
pub struct Verse {
    pub title: String,
    pub lyrics: Vec<Lyric>,
}

pub struct PartModel {
    pub text: Seq<char>,
    pub annotation: Option<AnnotationRef>,
}

pub enum LyricModel {
    Text(Seq<PartModel>),
    Blank,
}

pub struct VerseModel {
    pub title: Seq<char>,
    pub lyrics: Seq<LyricModel>,
}

impl View for LyricPart {
    type V = PartModel;

    open spec fn view(&self) -> PartModel {
        PartModel { text: self.text@, annotation: self.annotation }
    }
}

pub open spec fn parts_model(ps: Seq<LyricPart>) -> Seq<PartModel> {
    ps.map_values(|p: LyricPart| p@)
}

impl View for Lyric {
    type V = LyricModel;

    open spec fn view(&self) -> LyricModel {
        match self {
            Lyric::Text(ps) => LyricModel::Text(parts_model(ps@)),
            Lyric::Blank => LyricModel::Blank,
        }
    }
}

pub open spec fn lyrics_model(ls: Seq<Lyric>) -> Seq<LyricModel> {
    ls.map_values(|l: Lyric| l@)
}

impl View for Verse {
    type V = VerseModel;

    open spec fn view(&self) -> VerseModel {
        VerseModel { title: self.title@, lyrics: lyrics_model(self.lyrics@) }
    }
}

pub open spec fn verses_model(vs: Seq<Verse>) -> Seq<VerseModel> {
    vs.map_values(|v: Verse| v@)
}

/// The query of a lyrics page: the song's ID, where the link carries it.
#[derive(Debug, Clone, Copy, PartialEq, Eq)]
pub struct LyricsQuery {
    pub id: Option<u32>,
}

/// A node of a lyrics container, as far as the parser cares.
#[derive(Debug, Clone, PartialEq, Eq)]
pub enum LyricNode {
    /// A `<br>`.
    LineBreak,
    /// A link to an annotation, with its ID.
    AnnotationStart(i32),
    /// The empty marker that follows an annotated span.
    AnnotationEnd,
    /// A text node.
    Text(String),
    /// Anything else.
    Ignored,
}

/// A character with the Unicode `White_Space` property.
pub open spec fn is_white_space(c: char) -> bool {
    let u = c as u32;
    (0x09 <= u <= 0x0d) || u == 0x20 || u == 0x85 || u == 0xa0 || u == 0x1680 || (0x2000 <= u <= 0x200a)
        || u == 0x2028 || u == 0x2029 || u == 0x202f || u == 0x205f || u == 0x3000
}

pub open spec fn trim_start_of(s: Seq<char>) -> Seq<char>
    decreases s.len(),
{
    if s.len() > 0 && is_white_space(s[0]) {
        trim_start_of(s.skip(1))
    } else {
        s
    }
}

pub open spec fn trim_end_of(s: Seq<char>) -> Seq<char>
    decreases s.len(),
{
    if s.len() > 0 && is_white_space(s.last()) {
        trim_end_of(s.drop_last())
    } else {
        s
    }
}

/// The text without leading and trailing white space.
pub open spec fn trim_of(s: Seq<char>) -> Seq<char> {
    trim_end_of(trim_start_of(s))
}

/// Relies on `str::trim`, which drops the leading and trailing characters that have
/// the Unicode `White_Space` property.
#[verifier::external_body]
fn trim_text(s: &str) -> (r: &str)
    ensures
        r@ == trim_of(s@),
{
    s.trim()
}

/// A text node is a verse title when, trimmed, it is enclosed in brackets.
pub open spec fn is_title(t: Seq<char>) -> bool {
    let s = trim_of(t);
    s.len() >= 2 && s[0] == '[' && s[s.len() - 1] == ']'
}

pub open spec fn no_lyrics_text() -> Seq<char> {
    "This song has no lyrics."@
}

/// The verse shown when a page holds no lyrics.
pub open spec fn placeholder_verse() -> VerseModel {
    VerseModel {
        title: Seq::empty(),
        lyrics: seq![LyricModel::Text(seq![PartModel { text: no_lyrics_text(), annotation: None }])],
    }
}

pub open spec fn without_leading_blanks(ls: Seq<LyricModel>) -> Seq<LyricModel>
    decreases ls.len(),
{
    if ls.len() > 0 && ls[0] is Blank {
        without_leading_blanks(ls.skip(1))
    } else {
        ls
    }
}

pub open spec fn without_trailing_blanks(ls: Seq<LyricModel>) -> Seq<LyricModel>
    decreases ls.len(),
{
    if ls.len() > 0 && ls.last() is Blank {
        without_trailing_blanks(ls.drop_last())
    } else {
        ls
    }
}

/// A verse as it is closed: blank lines at either end are dropped.
pub open spec fn closed(v: VerseModel) -> VerseModel {
    VerseModel { title: v.title, lyrics: without_trailing_blanks(without_leading_blanks(v.lyrics)) }
}

/// The state of the parser between two nodes.
pub struct ParserState {
    /// Verses already closed.
    pub verses: Seq<VerseModel>,
    /// The verse being filled, once there is one.
    pub current: Option<VerseModel>,
    /// Whether a line break was seen since the last text.
    pub new_line: bool,
    /// The annotation that text belongs to at this point.
    pub annotation: Option<i32>,
    /// The annotation IDs that tag a part so far, once each, in order of first use.
    pub ids: Seq<i32>,
}

pub open spec fn initial_state() -> ParserState {
    ParserState { verses: Seq::empty(), current: None, new_line: false, annotation: None, ids: Seq::empty() }
}

pub open spec fn pending(annotation: Option<i32>) -> Option<AnnotationRef> {
    match annotation {
        Some(id) => Some(AnnotationRef::Pending(id)),
        None => None,
    }
}

pub open spec fn empty_verse() -> VerseModel {
    VerseModel { title: Seq::empty(), lyrics: Seq::empty() }
}

/// Adds a part to a verse: as a new line after a line break or where the verse does
/// not end in a text line, else at the end of its last line.
pub open spec fn with_part(v: VerseModel, part: PartModel, new_line: bool) -> VerseModel {
    if new_line || v.lyrics.len() == 0 || !(v.lyrics.last() is Text) {
        VerseModel { title: v.title, lyrics: v.lyrics.push(LyricModel::Text(seq![part])) }
    } else {
        VerseModel {
            title: v.title,
            lyrics: v.lyrics.update(
                v.lyrics.len() - 1,
                LyricModel::Text(v.lyrics.last()->Text_0.push(part)),
            ),
        }
    }
}

pub open spec fn with_blank(current: Option<VerseModel>) -> Option<VerseModel> {
    match current {
        Some(v) => Some(VerseModel { title: v.title, lyrics: v.lyrics.push(LyricModel::Blank) }),
        None => None,
    }
}

pub open spec fn closing(verses: Seq<VerseModel>, current: Option<VerseModel>) -> Seq<VerseModel> {
    match current {
        Some(v) => verses.push(closed(v)),
        None => verses,
    }
}

/// The IDs once a part tagged with `annotation` is added: its ID joins them, unless
/// they hold it already.
pub open spec fn with_id(ids: Seq<i32>, annotation: Option<i32>) -> Seq<i32> {
    match annotation {
        Some(id) => if ids.contains(id) { ids } else { ids.push(id) },
        None => ids,
    }
}

/// What one node does to the parser's state.
pub open spec fn step(s: ParserState, node: LyricNode) -> ParserState {
    match node {
        LyricNode::LineBreak => ParserState {
            current: if s.new_line { with_blank(s.current) } else { s.current },
            new_line: true,
            ..s
        },
        LyricNode::AnnotationStart(id) => ParserState { annotation: Some(id), ..s },
        LyricNode::AnnotationEnd => ParserState { annotation: None, ..s },
        LyricNode::Text(t) => if is_title(t@) {
            ParserState {
                verses: closing(s.verses, s.current),
                current: Some(VerseModel { title: trim_of(t@), lyrics: Seq::empty() }),
                new_line: false,
                ..s
            }
        } else {
            let v = match s.current {
                Some(v) => v,
                None => empty_verse(),
            };
            ParserState {
                current: Some(with_part(v, PartModel { text: t@, annotation: pending(s.annotation) }, s.new_line)),
                new_line: false,
                ids: with_id(s.ids, s.annotation),
                ..s
            }
        },
        LyricNode::Ignored => s,
    }
}

/// The state after the nodes, in order.
pub open spec fn run(nodes: Seq<LyricNode>) -> ParserState
    decreases nodes.len(),
{
    if nodes.len() == 0 {
        initial_state()
    } else {
        step(run(nodes.drop_last()), nodes.last())
    }
}

/// The verses once the last one is closed; a placeholder verse where there is none.
pub open spec fn finish(s: ParserState) -> Seq<VerseModel> {
    if s.current is None && s.verses.len() == 0 {
        seq![placeholder_verse()]
    } else {
        closing(s.verses, s.current)
    }
}

/// The verses that the nodes describe.
pub open spec fn parsed_verses(nodes: Seq<LyricNode>) -> Seq<VerseModel> {
    finish(run(nodes))
}

/// The annotation IDs that tag the parts, once each, in order of first use.
pub open spec fn referenced_ids(nodes: Seq<LyricNode>) -> Seq<i32> {
    run(nodes).ids
}

pub open spec fn opt_verse_model(v: Option<Verse>) -> Option<VerseModel> {
    match v {
        Some(v) => Some(v@),
        None => None,
    }
}

proof fn lemma_run_prefix(nodes: Seq<LyricNode>, i: int)
    requires
        0 <= i < nodes.len(),
    ensures
        run(nodes.take(i + 1)) == step(run(nodes.take(i)), nodes[i]),
{
    assert(nodes.take(i + 1).drop_last() =~= nodes.take(i));
}

proof fn lemma_verses_push(vs: Seq<Verse>, v: Verse)
    ensures
        verses_model(vs.push(v)) == verses_model(vs).push(v@),
{
    assert(verses_model(vs.push(v)) =~= verses_model(vs).push(v@));
}

proof fn lemma_lyrics_push(ls: Seq<Lyric>, l: Lyric)
    ensures
        lyrics_model(ls.push(l)) == lyrics_model(ls).push(l@),
{
    assert(lyrics_model(ls.push(l)) =~= lyrics_model(ls).push(l@));
}

proof fn lemma_parts_push(ps: Seq<LyricPart>, p: LyricPart)
    ensures
        parts_model(ps.push(p)) == parts_model(ps).push(p@),
{
    assert(parts_model(ps.push(p)) =~= parts_model(ps).push(p@));
}

fn contains_id(ids: &Vec<i32>, id: i32) -> (r: bool)
    ensures
        r == ids@.contains(id),
{
    let mut i: usize = 0;
    while i < ids.len()
        invariant
            0 <= i <= ids@.len(),
            forall|j: int| 0 <= j < i ==> ids@[j] != id,
        decreases ids@.len() - i,
    {
        if ids[i] == id {
            return true;
        }
        i = i + 1;
    }
    false
}

/// Closes a verse: drops the blank lines at its start and end.
fn close_verse(v: Verse) -> (r: Verse)
    ensures
        r@ == closed(v@),
{
    let Verse { title, mut lyrics } = v;
    let ghost start = lyrics_model(lyrics@);
    while lyrics.len() > 0 && matches!(lyrics[0], Lyric::Blank)
        invariant
            without_leading_blanks(lyrics_model(lyrics@)) == without_leading_blanks(start),
        decreases lyrics@.len(),
    {
        let ghost before = lyrics@;
        lyrics.remove(0);
        proof {
            assert(lyrics_model(lyrics@) =~= lyrics_model(before).skip(1));
        }
    }
    let ghost middle = lyrics_model(lyrics@);
    assert(without_leading_blanks(start) == middle);
    while lyrics.len() > 0 && matches!(lyrics[lyrics.len() - 1], Lyric::Blank)
        invariant
            without_trailing_blanks(lyrics_model(lyrics@)) == without_trailing_blanks(middle),
        decreases lyrics@.len(),
    {
        let ghost before = lyrics@;
        lyrics.pop();
        proof {
            assert(lyrics_model(lyrics@) =~= lyrics_model(before).drop_last());
        }
    }
    Verse { title, lyrics }
}

/// Adds a part to a verse, as `with_part` says.
fn add_part(v: &mut Verse, part: LyricPart, new_line: bool)
    ensures
        final(v)@ == with_part(old(v)@, part@, new_line),
{
    let n = v.lyrics.len();
    let starts_line = new_line || n == 0 || !matches!(v.lyrics[n - 1], Lyric::Text(_));
    if starts_line {
        let ghost before = v.lyrics@;
        let ps = vec![part];
        proof {
            assert(parts_model(ps@) =~= seq![part@]);
        }
        v.lyrics.push(Lyric::Text(ps));
        proof {
            lemma_lyrics_push(before, Lyric::Text(ps));
        }
    } else {
        let ghost before = v.lyrics@;
        let last = v.lyrics.pop();
        match last {
            Some(Lyric::Text(mut ps)) => {
                let ghost ps0 = ps@;
                ps.push(part);
                proof {
                    lemma_parts_push(ps0, part);
                }
                v.lyrics.push(Lyric::Text(ps));
                proof {
                    assert(lyrics_model(v.lyrics@) =~= lyrics_model(before).update(
                        before.len() - 1,
                        LyricModel::Text(parts_model(ps0).push(part@)),
                    ));
                }
            },
            _ => {
                proof {
                    assert(false);
                }
            },
        }
    }
}

/// Builds verses from the nodes of the lyrics containers, in document order.
///
/// A `<br>` right after another adds a blank line; a single one only ends the line.
/// A bracketed text starts a new verse with that title. Other text joins the current
/// line, or starts one after a line break, tagged with the annotation open at that
/// point. A page without lyrics gives one placeholder verse. Also returns the
/// annotation IDs that tag the parts, without repeats, in order of first use.
pub fn parse_lyrics(nodes: &Vec<LyricNode>) -> (r: (Vec<Verse>, Vec<i32>))
    ensures
        verses_model(r.0@) == parsed_verses(nodes@),
        r.1@ == referenced_ids(nodes@),
        verses_unresolved_in(verses_model(r.0@), r.1@),
        r.1@.no_duplicates(),
{
    proof {
        lemma_parsed_parts_unresolved(nodes@);
    }
    let mut verses: Vec<Verse> = Vec::new();
    let mut current: Option<Verse> = None;
    let mut new_line = false;
    let mut annotation: Option<i32> = None;
    let mut ids: Vec<i32> = Vec::new();
    let mut i: usize = 0;
    proof {
        assert(nodes@.take(0) =~= Seq::<LyricNode>::empty());
        assert(verses_model(verses@) =~= Seq::<VerseModel>::empty());
    }
    while i < nodes.len()
        invariant
            0 <= i <= nodes@.len(),
            run(nodes@.take(i as int)) == (ParserState {
                verses: verses_model(verses@),
                current: opt_verse_model(current),
                new_line,
                annotation,
                ids: ids@,
            }),
        decreases nodes@.len() - i,
    {
        proof {
            lemma_run_prefix(nodes@, i as int);
        }
        match &nodes[i] {
            LyricNode::LineBreak => {
                if new_line {
                    let cur = current.take();
                    match cur {
                        Some(mut v) => {
                            let ghost before = v.lyrics@;
                            v.lyrics.push(Lyric::Blank);
                            proof {
                                lemma_lyrics_push(before, Lyric::Blank);
                            }
                            current = Some(v);
                        },
                        None => {},
                    }
                }
                new_line = true;
            },
            LyricNode::AnnotationStart(id) => {
                annotation = Some(*id);
            },
            LyricNode::AnnotationEnd => {
                annotation = None;
            },
            LyricNode::Text(t) => {
                let trimmed = trim_text(t.as_str());
                let len = trimmed.unicode_len();
                let title = len >= 2 && trimmed.get_char(0) == '[' && trimmed.get_char(len - 1) == ']';
                if title {
                    let cur = current.take();
                    match cur {
                        Some(v) => {
                            let ghost before = verses@;
                            let c = close_verse(v);
                            verses.push(c);
                            proof {
                                lemma_verses_push(before, c);
                            }
                        },
                        None => {},
                    }
                    current = Some(Verse { title: String::from_str(trimmed), lyrics: Vec::new() });
                    proof {
                        assert(lyrics_model(Seq::<Lyric>::empty()) =~= Seq::<LyricModel>::empty());
                    }
                } else {
                    let cur = current.take();
                    let mut v = match cur {
                        Some(v) => v,
                        None => {
                            let v = Verse { title: String::new(), lyrics: Vec::new() };
                            proof {
                                assert(lyrics_model(v.lyrics@) =~= Seq::<LyricModel>::empty());
                            }
                            v
                        },
                    };
                    let part_annotation = match annotation {
                        Some(id) => {
                            if !contains_id(&ids, id) {
                                ids.push(id);
                            }
                            Some(AnnotationRef::Pending(id))
                        },
                        None => None,
                    };
                    add_part(&mut v, LyricPart { text: t.clone(), annotation: part_annotation }, new_line);
                    current = Some(v);
                }
                new_line = false;
            },
            LyricNode::Ignored => {},
        }
        i = i + 1;
    }
    proof {
        assert(nodes@.take(nodes@.len() as int) =~= nodes@);
    }
    match current {
        Some(v) => {
            let ghost before = verses@;
            let c = close_verse(v);
            verses.push(c);
            proof {
                lemma_verses_push(before, c);
            }
        },
        None => {
            if verses.len() == 0 {
                let part = LyricPart { text: String::from_str("This song has no lyrics."), annotation: None };
                let ps = vec![part];
                let ls = vec![Lyric::Text(ps)];
                let v = Verse { title: String::new(), lyrics: ls };
                proof {
                    assert(parts_model(ps@) =~= seq![part@]);
                    assert(lyrics_model(ls@) =~= seq![Lyric::Text(ps)@]);
                    assert(v@ == placeholder_verse());
                }
                verses.push(v);
                proof {
                    assert(verses_model(verses@) =~= seq![placeholder_verse()]);
                }
            }
        },
    }
    (verses, ids)
}


/// Neither the first nor the last line of the verse is blank.
pub open spec fn blank_free_ends(v: VerseModel) -> bool {
    v.lyrics.len() > 0 ==> !(v.lyrics[0] is Blank) && !(v.lyrics.last() is Blank)
}

proof fn lemma_without_leading_blanks(ls: Seq<LyricModel>)
    ensures
        without_leading_blanks(ls).len() > 0 ==> !(without_leading_blanks(ls)[0] is Blank),
    decreases ls.len(),
{
    if ls.len() > 0 && ls[0] is Blank {
        lemma_without_leading_blanks(ls.skip(1));
    }
}

proof fn lemma_without_trailing_blanks(ls: Seq<LyricModel>)
    ensures
        without_trailing_blanks(ls).len() <= ls.len(),
        without_trailing_blanks(ls) =~= ls.take(without_trailing_blanks(ls).len() as int),
        without_trailing_blanks(ls).len() > 0 ==> !(without_trailing_blanks(ls).last() is Blank),
    decreases ls.len(),
{
    if ls.len() > 0 && ls.last() is Blank {
        lemma_without_trailing_blanks(ls.drop_last());
    }
}

proof fn lemma_closed_ends(v: VerseModel)
    ensures
        blank_free_ends(closed(v)),
{
    let lead = without_leading_blanks(v.lyrics);
    lemma_without_leading_blanks(v.lyrics);
    lemma_without_trailing_blanks(lead);
    let r = without_trailing_blanks(lead);
    if r.len() > 0 {
        assert(r[0] == lead[0]);
    }
}

proof fn lemma_run_verses_closed(nodes: Seq<LyricNode>)
    ensures
        forall|i: int| 0 <= i < run(nodes).verses.len() ==> blank_free_ends(#[trigger] run(nodes).verses[i]),
    decreases nodes.len(),
{
    if nodes.len() > 0 {
        let prev = run(nodes.drop_last());
        lemma_run_verses_closed(nodes.drop_last());
        match prev.current {
            Some(v) => lemma_closed_ends(v),
            None => {},
        }
        let s = run(nodes);
        assert forall|i: int| 0 <= i < s.verses.len() implies blank_free_ends(#[trigger] s.verses[i]) by {
            if i < prev.verses.len() {
                assert(s.verses[i] == prev.verses[i]);
            }
        }
    }
}

/// No verse that the parser returns begins or ends with a blank line.
pub proof fn lemma_no_blank_at_verse_ends(nodes: Seq<LyricNode>)
    ensures
        forall|i: int| 0 <= i < parsed_verses(nodes).len() ==> blank_free_ends(#[trigger] parsed_verses(nodes)[i]),
{
    let s = run(nodes);
    lemma_run_verses_closed(nodes);
    match s.current {
        Some(v) => lemma_closed_ends(v),
        None => {},
    }
    let r = parsed_verses(nodes);
    assert forall|i: int| 0 <= i < r.len() implies blank_free_ends(#[trigger] r[i]) by {
        if s.current is Some && i < s.verses.len() {
            assert(r[i] == s.verses[i]);
        }
    }
}

proof fn lemma_run_without_text(nodes: Seq<LyricNode>)
    requires
        forall|i: int| 0 <= i < nodes.len() ==> !(#[trigger] nodes[i] is Text),
    ensures
        run(nodes).verses.len() == 0,
        run(nodes).current is None,
        run(nodes).ids.len() == 0,
    decreases nodes.len(),
{
    if nodes.len() > 0 {
        assert forall|i: int| 0 <= i < nodes.drop_last().len() implies !(#[trigger] nodes.drop_last()[i] is Text) by {
            assert(nodes.drop_last()[i] == nodes[i]);
        }
        lemma_run_without_text(nodes.drop_last());
        assert(!(nodes[nodes.len() - 1] is Text));
    }
}

/// Lyrics containers without any text give exactly the placeholder verse and no
/// annotation IDs.
pub proof fn lemma_no_text_gives_placeholder(nodes: Seq<LyricNode>)
    requires
        forall|i: int| 0 <= i < nodes.len() ==> !(#[trigger] nodes[i] is Text),
    ensures
        parsed_verses(nodes) == seq![placeholder_verse()],
        referenced_ids(nodes).len() == 0,
{
    lemma_run_without_text(nodes);
}

/// The part's annotation is unresolved: none, or a pending ID that `ids` holds.
pub open spec fn part_unresolved_in(p: PartModel, ids: Seq<i32>) -> bool {
    match p.annotation {
        None => true,
        Some(AnnotationRef::Pending(id)) => ids.contains(id),
        Some(AnnotationRef::Resolved(_)) => false,
    }
}

pub open spec fn lyric_unresolved_in(l: LyricModel, ids: Seq<i32>) -> bool {
    match l {
        LyricModel::Text(ps) => forall|p: int| 0 <= p < ps.len() ==> part_unresolved_in(#[trigger] ps[p], ids),
        LyricModel::Blank => true,
    }
}

pub open spec fn verse_unresolved_in(v: VerseModel, ids: Seq<i32>) -> bool {
    forall|l: int| 0 <= l < v.lyrics.len() ==> lyric_unresolved_in(#[trigger] v.lyrics[l], ids)
}

/// Every part of the verses is unresolved, with its ID among `ids`.
pub open spec fn verses_unresolved_in(vs: Seq<VerseModel>, ids: Seq<i32>) -> bool {
    forall|i: int| 0 <= i < vs.len() ==> verse_unresolved_in(#[trigger] vs[i], ids)
}

pub open spec fn state_unresolved(s: ParserState) -> bool {
    &&& verses_unresolved_in(s.verses, s.ids)
    &&& (s.current matches Some(v) ==> verse_unresolved_in(v, s.ids))
    &&& s.ids.no_duplicates()
}

proof fn lemma_verse_ids_grow(v: VerseModel, ids: Seq<i32>, more: Seq<i32>)
    requires
        verse_unresolved_in(v, ids),
        forall|y: i32| ids.contains(y) ==> #[trigger] more.contains(y),
    ensures
        verse_unresolved_in(v, more),
{
    assert forall|l: int| 0 <= l < v.lyrics.len() implies lyric_unresolved_in(#[trigger] v.lyrics[l], more) by {
        if v.lyrics[l] is Text {
            let ps = v.lyrics[l]->Text_0;
            assert forall|p: int| 0 <= p < ps.len() implies part_unresolved_in(#[trigger] ps[p], more) by {
                assert(part_unresolved_in(ps[p], ids));
            }
        }
    }
}

proof fn lemma_ids_grow(vs: Seq<VerseModel>, ids: Seq<i32>, more: Seq<i32>)
    requires
        verses_unresolved_in(vs, ids),
        forall|y: i32| ids.contains(y) ==> #[trigger] more.contains(y),
    ensures
        verses_unresolved_in(vs, more),
{
    assert forall|i: int| 0 <= i < vs.len() implies verse_unresolved_in(#[trigger] vs[i], more) by {
        lemma_verse_ids_grow(vs[i], ids, more);
    }
}

proof fn lemma_leading_keeps_unresolved(ls: Seq<LyricModel>, ids: Seq<i32>)
    requires
        forall|l: int| 0 <= l < ls.len() ==> lyric_unresolved_in(#[trigger] ls[l], ids),
    ensures
        forall|l: int| 0 <= l < without_leading_blanks(ls).len() ==> lyric_unresolved_in(
            #[trigger] without_leading_blanks(ls)[l],
            ids,
        ),
    decreases ls.len(),
{
    if ls.len() > 0 && ls[0] is Blank {
        assert forall|l: int| 0 <= l < ls.skip(1).len() implies lyric_unresolved_in(#[trigger] ls.skip(1)[l], ids) by {
            assert(ls.skip(1)[l] == ls[l + 1]);
        }
        lemma_leading_keeps_unresolved(ls.skip(1), ids);
        assert(without_leading_blanks(ls) == without_leading_blanks(ls.skip(1)));
    } else {
        assert(without_leading_blanks(ls) == ls);
    }
}

proof fn lemma_trailing_keeps_unresolved(ls: Seq<LyricModel>, ids: Seq<i32>)
    requires
        forall|l: int| 0 <= l < ls.len() ==> lyric_unresolved_in(#[trigger] ls[l], ids),
    ensures
        forall|l: int| 0 <= l < without_trailing_blanks(ls).len() ==> lyric_unresolved_in(
            #[trigger] without_trailing_blanks(ls)[l],
            ids,
        ),
    decreases ls.len(),
{
    if ls.len() > 0 && ls.last() is Blank {
        assert forall|l: int| 0 <= l < ls.drop_last().len() implies lyric_unresolved_in(#[trigger] ls.drop_last()[l], ids) by {
            assert(ls.drop_last()[l] == ls[l]);
        }
        lemma_trailing_keeps_unresolved(ls.drop_last(), ids);
        assert(without_trailing_blanks(ls) == without_trailing_blanks(ls.drop_last()));
    } else {
        assert(without_trailing_blanks(ls) == ls);
    }
}

proof fn lemma_closed_unresolved(v: VerseModel, ids: Seq<i32>)
    requires
        verse_unresolved_in(v, ids),
    ensures
        verse_unresolved_in(closed(v), ids),
{
    lemma_leading_keeps_unresolved(v.lyrics, ids);
    lemma_trailing_keeps_unresolved(without_leading_blanks(v.lyrics), ids);
}

proof fn lemma_with_part_unresolved(v: VerseModel, part: PartModel, new_line: bool, ids: Seq<i32>)
    requires
        verse_unresolved_in(v, ids),
        part_unresolved_in(part, ids),
    ensures
        verse_unresolved_in(with_part(v, part, new_line), ids),
{
    let r = with_part(v, part, new_line);
    assert forall|l: int| 0 <= l < r.lyrics.len() implies lyric_unresolved_in(#[trigger] r.lyrics[l], ids) by {
        if l < v.lyrics.len() && !(l == v.lyrics.len() - 1 && !(new_line || v.lyrics.len() == 0 || !(v.lyrics.last() is Text))) {
            assert(r.lyrics[l] == v.lyrics[l]);
        } else if new_line || v.lyrics.len() == 0 || !(v.lyrics.last() is Text) {
            assert(r.lyrics[l] == LyricModel::Text(seq![part]));
        } else {
            let ps = v.lyrics.last()->Text_0;
            assert(lyric_unresolved_in(v.lyrics[v.lyrics.len() - 1], ids));
            assert forall|p: int| 0 <= p < ps.push(part).len() implies part_unresolved_in(#[trigger] ps.push(part)[p], ids) by {
                if p < ps.len() {
                    assert(ps.push(part)[p] == ps[p]);
                }
            }
        }
    }
}

proof fn lemma_step_unresolved(s: ParserState, node: LyricNode)
    requires
        state_unresolved(s),
    ensures
        state_unresolved(step(s, node)),
{
    let r = step(s, node);
    match node {
        LyricNode::LineBreak => {
            if s.new_line && s.current is Some {
                let v = s.current->Some_0;
                let w = r.current->Some_0;
                assert forall|l: int| 0 <= l < w.lyrics.len() implies lyric_unresolved_in(#[trigger] w.lyrics[l], s.ids) by {
                    if l < v.lyrics.len() {
                        assert(w.lyrics[l] == v.lyrics[l]);
                    }
                }
            }
        },
        LyricNode::AnnotationStart(_) => {},
        LyricNode::AnnotationEnd => {},
        LyricNode::Text(t) => {
            if is_title(t@) {
                if s.current is Some {
                    lemma_closed_unresolved(s.current->Some_0, s.ids);
                    let c = closed(s.current->Some_0);
                    assert forall|i: int| 0 <= i < r.verses.len() implies verse_unresolved_in(#[trigger] r.verses[i], s.ids) by {
                        if i < s.verses.len() {
                            assert(r.verses[i] == s.verses[i]);
                        }
                    }
                }
            } else {
                let v = match s.current {
                    Some(v) => v,
                    None => empty_verse(),
                };
                let ids = with_id(s.ids, s.annotation);
                if s.annotation is Some {
                    let id = s.annotation->Some_0;
                    if !s.ids.contains(id) {
                        assert forall|y: i32| s.ids.contains(y) implies #[trigger] ids.contains(y) by {
                            let k = choose|k: int| 0 <= k < s.ids.len() && s.ids[k] == y;
                            assert(ids[k] == y);
                        }
                        assert(ids[s.ids.len() as int] == id);
                    }
                }
                lemma_ids_grow(s.verses, s.ids, ids);
                lemma_verse_ids_grow(v, s.ids, ids);
                lemma_with_part_unresolved(v, PartModel { text: t@, annotation: pending(s.annotation) }, s.new_line, ids);
            }
        },
        LyricNode::Ignored => {},
    }
}

proof fn lemma_run_unresolved(nodes: Seq<LyricNode>)
    ensures
        state_unresolved(run(nodes)),
    decreases nodes.len(),
{
    if nodes.len() > 0 {
        lemma_run_unresolved(nodes.drop_last());
        lemma_step_unresolved(run(nodes.drop_last()), nodes.last());
    }
}

/// The parser hands out no resolved annotation: each part has none or a pending ID
/// that the returned IDs hold, and those IDs have no repeats.
pub proof fn lemma_parsed_parts_unresolved(nodes: Seq<LyricNode>)
    ensures
        verses_unresolved_in(parsed_verses(nodes), referenced_ids(nodes)),
        referenced_ids(nodes).no_duplicates(),
{
    let s = run(nodes);
    lemma_run_unresolved(nodes);
    let r = parsed_verses(nodes);
    if s.current is Some {
        lemma_closed_unresolved(s.current->Some_0, s.ids);
        assert forall|i: int| 0 <= i < r.len() implies verse_unresolved_in(#[trigger] r[i], s.ids) by {
            if i < s.verses.len() {
                assert(r[i] == s.verses[i]);
            }
        }
    } else if s.verses.len() == 0 {
        let v = placeholder_verse();
        assert forall|l: int| 0 <= l < v.lyrics.len() implies lyric_unresolved_in(#[trigger] v.lyrics[l], s.ids) by {
            let ps = v.lyrics[l]->Text_0;
            assert forall|p: int| 0 <= p < ps.len() implies part_unresolved_in(#[trigger] ps[p], s.ids) by {}
        }
    }
}

} // verus!
