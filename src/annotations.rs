use std::collections::HashMap;
use vstd::prelude::*;

use crate::genius::GeniusReferentResponse;
use crate::links::{rewrite_links, rewritten};
use crate::lyrics::{
    lyrics_model, parts_model, verses_model, Annotation, AnnotationRef, Lyric, LyricModel, LyricPart,
    PartModel, Verse, VerseModel,
};

verus! {

broadcast use vstd::std_specs::hash::group_hash_axioms;

/// `a` is the annotation shown for the referent: taken from its first annotation,
/// with the body's links rewritten.
pub open spec fn is_annotation_of(a: Annotation, value: GeniusReferentResponse) -> bool {
    let referent = value.referent;
    &&& referent.annotations@.len() > 0
    &&& a.id == referent.id
    &&& a.quote == referent.fragment
    &&& a.body@ == rewritten(referent.annotations@[0].body.html@)
    &&& a.votes == referent.annotations@[0].votes_total
}

/// The annotation shown for a referent; none where the referent has no annotation.
pub fn annotation_from_referent(value: &GeniusReferentResponse) -> (r: Option<Annotation>)
    ensures
        r is None <==> value.referent.annotations@.len() == 0,
        r matches Some(a) ==> is_annotation_of(a, *value),
{
    let referent = &value.referent;
    if referent.annotations.len() == 0 {
        return None;
    }
    let first = &referent.annotations[0];
    Some(Annotation {
        id: referent.id,
        quote: referent.fragment.clone(),
        body: rewrite_links(first.body.html.as_str()),
        votes: first.votes_total,
    })
}

/// The outcome of fetching an annotation ID gave something to show.
pub open spec fn usable(result: Option<GeniusReferentResponse>) -> bool {
    result matches Some(value) && value.referent.annotations@.len() > 0
}

/// Builds the ID-to-annotation mapping from the outcome of each fetch: `None` for one
/// that failed. Failed fetches, and referents without annotations, are left out.
pub fn collect_resolved(results: &Vec<(i32, Option<GeniusReferentResponse>)>) -> (r: HashMap<i32, Annotation>)
    ensures
        forall|id: i32| #[trigger] r@.contains_key(id) <==> exists|j: int|
            0 <= j < results@.len() && (#[trigger] results@[j]).0 == id && usable(results@[j].1),
        forall|id: i32| #[trigger] r@.contains_key(id) ==> exists|j: int|
            0 <= j < results@.len() && (#[trigger] results@[j]).0 == id && (results@[j].1 matches Some(value)
                && is_annotation_of(r@[id], value)),
{
    let mut m: HashMap<i32, Annotation> = HashMap::new();
    let mut i: usize = 0;
    while i < results.len()
        invariant
            0 <= i <= results@.len(),
            forall|id: i32| #[trigger] m@.contains_key(id) <==> exists|j: int|
                0 <= j < i && (#[trigger] results@[j]).0 == id && usable(results@[j].1),
            forall|id: i32| #[trigger] m@.contains_key(id) ==> exists|j: int|
                0 <= j < i && (#[trigger] results@[j]).0 == id && (results@[j].1 matches Some(value)
                    && is_annotation_of(m@[id], value)),
        decreases results@.len() - i,
    {
        let (id, result) = &results[i];
        match result {
            Some(value) => {
                match annotation_from_referent(value) {
                    Some(a) => {
                        m.insert(*id, a);
                        assert(results@[i as int].0 == *id);
                    },
                    None => {},
                }
            },
            None => {},
        }
        i = i + 1;
    }
    m
}

/// What a part's annotation becomes once the resolved annotations are merged in.
pub open spec fn merged_ref(a: Option<AnnotationRef>, resolved: Map<i32, Annotation>) -> Option<AnnotationRef> {
    match a {
        Some(AnnotationRef::Pending(id)) => if resolved.contains_key(id) {
            Some(AnnotationRef::Resolved(resolved[id]))
        } else {
            None
        },
        other => other,
    }
}

pub open spec fn merged_part(p: PartModel, resolved: Map<i32, Annotation>) -> PartModel {
    PartModel { text: p.text, annotation: merged_ref(p.annotation, resolved) }
}

pub open spec fn merged_lyric(l: LyricModel, resolved: Map<i32, Annotation>) -> LyricModel {
    match l {
        LyricModel::Text(ps) => LyricModel::Text(ps.map_values(|p: PartModel| merged_part(p, resolved))),
        LyricModel::Blank => LyricModel::Blank,
    }
}

pub open spec fn merged_verse(v: VerseModel, resolved: Map<i32, Annotation>) -> VerseModel {
    VerseModel { title: v.title, lyrics: v.lyrics.map_values(|l: LyricModel| merged_lyric(l, resolved)) }
}

/// The verses with the resolved annotations merged in.
pub open spec fn merged(vs: Seq<VerseModel>, resolved: Map<i32, Annotation>) -> Seq<VerseModel> {
    vs.map_values(|v: VerseModel| merged_verse(v, resolved))
}

fn merge_ref(a: &Option<AnnotationRef>, resolved: &HashMap<i32, Annotation>) -> (r: Option<AnnotationRef>)
    ensures
        r == merged_ref(*a, resolved@),
{
    match a {
        Some(AnnotationRef::Pending(id)) => match resolved.get(id) {
            Some(found) => Some(AnnotationRef::Resolved(found.copy())),
            None => None,
        },
        Some(other) => Some(other.copy()),
        None => None,
    }
}

fn merge_lyric(l: &Lyric, resolved: &HashMap<i32, Annotation>) -> (r: Lyric)
    ensures
        r@ == merged_lyric(l@, resolved@),
{
    match l {
        Lyric::Blank => Lyric::Blank,
        Lyric::Text(ps) => {
            let mut out: Vec<LyricPart> = Vec::new();
            let mut i: usize = 0;
            while i < ps.len()
                invariant
                    0 <= i <= ps@.len(),
                    out@.len() == i,
                    forall|j: int| 0 <= j < i ==> (#[trigger] out@[j])@ == merged_part(ps@[j]@, resolved@),
                decreases ps@.len() - i,
            {
                let p = &ps[i];
                let q = LyricPart { text: p.text.clone(), annotation: merge_ref(&p.annotation, resolved) };
                out.push(q);
                i = i + 1;
            }
            proof {
                assert(parts_model(out@) =~= parts_model(ps@).map_values(|p: PartModel| merged_part(p, resolved@)));
            }
            Lyric::Text(out)
        },
    }
}

fn merge_verse(v: &Verse, resolved: &HashMap<i32, Annotation>) -> (r: Verse)
    ensures
        r@ == merged_verse(v@, resolved@),
{
    let mut out: Vec<Lyric> = Vec::new();
    let mut i: usize = 0;
    while i < v.lyrics.len()
        invariant
            0 <= i <= v.lyrics@.len(),
            out@.len() == i,
            forall|j: int| 0 <= j < i ==> (#[trigger] out@[j])@ == merged_lyric(v.lyrics@[j]@, resolved@),
        decreases v.lyrics@.len() - i,
    {
        out.push(merge_lyric(&v.lyrics[i], resolved));
        i = i + 1;
    }
    proof {
        assert(lyrics_model(out@) =~= lyrics_model(v.lyrics@).map_values(|l: LyricModel| merged_lyric(l, resolved@)));
    }
    Verse { title: v.title.clone(), lyrics: out }
}

/// Merges the resolved annotations into the verses: a part that refers to a resolved
/// ID gets its own copy of that annotation, and one whose ID was not resolved keeps
/// its text and loses the reference.
pub fn merge(verses: &mut Vec<Verse>, resolved: &HashMap<i32, Annotation>)
    ensures
        verses_model(final(verses)@) == merged(verses_model(old(verses)@), resolved@),
{
    let mut out: Vec<Verse> = Vec::new();
    let mut i: usize = 0;
    while i < verses.len()
        invariant
            0 <= i <= verses@.len(),
            out@.len() == i,
            forall|j: int| 0 <= j < i ==> (#[trigger] out@[j])@ == merged_verse(verses@[j]@, resolved@),
        decreases verses@.len() - i,
    {
        out.push(merge_verse(&verses[i], resolved));
        i = i + 1;
    }
    proof {
        assert(verses_model(out@) =~= merged(verses_model(verses@), resolved@));
    }
    *verses = out;
}

/// The resolved annotations of the IDs, in the IDs' order, skipping unresolved ones.
pub open spec fn listed(ids: Seq<i32>, resolved: Map<i32, Annotation>) -> Seq<Annotation>
    decreases ids.len(),
{
    if ids.len() == 0 {
        Seq::empty()
    } else {
        let rest = listed(ids.drop_last(), resolved);
        if resolved.contains_key(ids.last()) {
            rest.push(resolved[ids.last()])
        } else {
            rest
        }
    }
}

/// The annotations to list beside the lyrics: one per resolved ID.
pub fn annotation_list(ids: &Vec<i32>, resolved: &HashMap<i32, Annotation>) -> (r: Vec<Annotation>)
    ensures
        r@ == listed(ids@, resolved@),
{
    let mut out: Vec<Annotation> = Vec::new();
    let mut i: usize = 0;
    proof {
        assert(ids@.take(0) =~= Seq::<i32>::empty());
    }
    while i < ids.len()
        invariant
            0 <= i <= ids@.len(),
            out@ == listed(ids@.take(i as int), resolved@),
        decreases ids@.len() - i,
    {
        proof {
            assert(ids@.take(i + 1).drop_last() =~= ids@.take(i as int));
        }
        match resolved.get(&ids[i]) {
            Some(a) => out.push(a.copy()),
            None => {},
        }
        i = i + 1;
    }
    proof {
        assert(ids@.take(ids@.len() as int) =~= ids@);
    }
    out
}

/// `resolved` is what the fetch outcomes give: an ID is resolved exactly where one of
/// its fetches gave a referent with an annotation, and to the annotation shown for one
/// such referent.
pub open spec fn resolved_from(resolved: Map<i32, Annotation>, results: Seq<(i32, Option<GeniusReferentResponse>)>) -> bool {
    &&& forall|id: i32| #[trigger] resolved.contains_key(id) <==> exists|j: int|
        0 <= j < results.len() && (#[trigger] results[j]).0 == id && usable(results[j].1)
    &&& forall|id: i32| #[trigger] resolved.contains_key(id) ==> exists|j: int|
        0 <= j < results.len() && (#[trigger] results[j]).0 == id && (results[j].1 matches Some(value)
            && is_annotation_of(resolved[id], value))
}

/// Each ID was fetched once.
pub open spec fn distinct_ids(results: Seq<(i32, Option<GeniusReferentResponse>)>) -> bool {
    forall|j: int, k: int| 0 <= j < results.len() && 0 <= k < results.len() && (#[trigger] results[j]).0 == (
    #[trigger] results[k]).0 ==> j == k
}

/// Attaches the fetched annotations to the verses, as `merge` says, and returns the
/// annotations to list beside them, one per resolved ID of `ids`.
pub fn attach_annotations(
    verses: &mut Vec<Verse>,
    ids: &Vec<i32>,
    results: &Vec<(i32, Option<GeniusReferentResponse>)>,
) -> (r: Vec<Annotation>)
    ensures
        exists|resolved: Map<i32, Annotation>|
            verses_model(final(verses)@) == merged(verses_model(old(verses)@), resolved) && r@ == listed(ids@, resolved)
                && #[trigger] resolved_from(resolved, results@),
{
    let resolved = collect_resolved(results);
    merge(verses, &resolved);
    let r = annotation_list(ids, &resolved);
    proof {
        assert(resolved_from(resolved@, results@));
    }
    r
}

/// Whether verse `v` has a text line `l` with a part `p`.
pub open spec fn has_part(vs: Seq<VerseModel>, v: int, l: int, p: int) -> bool {
    &&& 0 <= v < vs.len()
    &&& 0 <= l < vs[v].lyrics.len()
    &&& vs[v].lyrics[l] is Text
    &&& 0 <= p < vs[v].lyrics[l]->Text_0.len()
}

pub open spec fn part_at(vs: Seq<VerseModel>, v: int, l: int, p: int) -> PartModel {
    vs[v].lyrics[l]->Text_0[p]
}

/// Merging keeps the shape of the verses, and each part becomes `merged_part` of itself.
pub proof fn lemma_merged_part(vs: Seq<VerseModel>, resolved: Map<i32, Annotation>, v: int, l: int, p: int)
    requires
        has_part(vs, v, l, p),
    ensures
        has_part(merged(vs, resolved), v, l, p),
        part_at(merged(vs, resolved), v, l, p) == merged_part(part_at(vs, v, l, p), resolved),
{
}

/// Two parts in different verses that refer to one resolved ID each end up holding an
/// annotation equal to the resolved one, so equal to each other.
pub proof fn lemma_shared_id_same_annotation(
    vs: Seq<VerseModel>,
    resolved: Map<i32, Annotation>,
    id: i32,
    va: int,
    la: int,
    pa: int,
    vb: int,
    lb: int,
    pb: int,
)
    requires
        has_part(vs, va, la, pa),
        has_part(vs, vb, lb, pb),
        va != vb,
        part_at(vs, va, la, pa).annotation == Some(AnnotationRef::Pending(id)),
        part_at(vs, vb, lb, pb).annotation == Some(AnnotationRef::Pending(id)),
        resolved.contains_key(id),
    ensures
        part_at(merged(vs, resolved), va, la, pa).annotation == Some(AnnotationRef::Resolved(resolved[id])),
        part_at(merged(vs, resolved), vb, lb, pb).annotation == Some(AnnotationRef::Resolved(resolved[id])),
        part_at(merged(vs, resolved), va, la, pa).annotation == part_at(merged(vs, resolved), vb, lb, pb).annotation,
{
    lemma_merged_part(vs, resolved, va, la, pa);
    lemma_merged_part(vs, resolved, vb, lb, pb);
}

/// Where an ID was not resolved, every part that referred to it is left as plain text,
/// while parts that refer to resolved IDs get their annotations.
pub proof fn lemma_unresolved_id_left_plain(vs: Seq<VerseModel>, resolved: Map<i32, Annotation>, failed: i32)
    requires
        !resolved.contains_key(failed),
    ensures
        forall|v: int, l: int, p: int|
            has_part(vs, v, l, p) && part_at(vs, v, l, p).annotation == Some(AnnotationRef::Pending(failed))
                ==> #[trigger] part_at(merged(vs, resolved), v, l, p).annotation is None,
        forall|v: int, l: int, p: int, id: i32|
            has_part(vs, v, l, p) && part_at(vs, v, l, p).annotation == Some(AnnotationRef::Pending(id))
                && #[trigger] resolved.contains_key(id)
                ==> #[trigger] part_at(merged(vs, resolved), v, l, p).annotation == Some(AnnotationRef::Resolved(resolved[id])),
{
    assert forall|v: int, l: int, p: int|
        has_part(vs, v, l, p) && part_at(vs, v, l, p).annotation == Some(AnnotationRef::Pending(failed))
            implies #[trigger] part_at(merged(vs, resolved), v, l, p).annotation is None by {
        lemma_merged_part(vs, resolved, v, l, p);
    }
    assert forall|v: int, l: int, p: int, id: i32|
        has_part(vs, v, l, p) && part_at(vs, v, l, p).annotation == Some(AnnotationRef::Pending(id))
            && #[trigger] resolved.contains_key(id)
            implies #[trigger] part_at(merged(vs, resolved), v, l, p).annotation == Some(AnnotationRef::Resolved(resolved[id])) by {
        lemma_merged_part(vs, resolved, v, l, p);
    }
}

/// After merging, no part is left waiting: each has its annotation or none at all.
pub proof fn lemma_merge_leaves_nothing_pending(vs: Seq<VerseModel>, resolved: Map<i32, Annotation>)
    ensures
        forall|v: int, l: int, p: int|
            #[trigger] has_part(merged(vs, resolved), v, l, p) ==> !(part_at(merged(vs, resolved), v, l, p).annotation matches Some(
                AnnotationRef::Pending(_),
            )),
{
    assert forall|v: int, l: int, p: int| #[trigger] has_part(merged(vs, resolved), v, l, p) implies !(part_at(
        merged(vs, resolved),
        v,
        l,
        p,
    ).annotation matches Some(AnnotationRef::Pending(_))) by {
        assert(has_part(vs, v, l, p));
        lemma_merged_part(vs, resolved, v, l, p);
    }
}

proof fn lemma_resolved_entry(resolved: Map<i32, Annotation>, results: Seq<(i32, Option<GeniusReferentResponse>)>, j: int)
    requires
        resolved_from(resolved, results),
        distinct_ids(results),
        0 <= j < results.len(),
    ensures
        resolved.contains_key(results[j].0) <==> usable(results[j].1),
        usable(results[j].1) ==> is_annotation_of(resolved[results[j].0], results[j].1->Some_0),
{
    let id = results[j].0;
    if usable(results[j].1) {
        assert(resolved.contains_key(id));
        let k = choose|k: int|
            0 <= k < results.len() && (#[trigger] results[k]).0 == id && (results[k].1 matches Some(value)
                && is_annotation_of(resolved[id], value));
        assert(k == j);
    }
    if resolved.contains_key(id) {
        let k = choose|k: int| 0 <= k < results.len() && (#[trigger] results[k]).0 == id && usable(results[k].1);
        assert(k == j);
    }
}

/// Two parts in different verses tagged with one ID whose fetch gave a referent with an
/// annotation each end up holding the annotation shown for that referent.
pub proof fn lemma_shared_id_gets_fetched_annotation(
    vs: Seq<VerseModel>,
    resolved: Map<i32, Annotation>,
    results: Seq<(i32, Option<GeniusReferentResponse>)>,
    j: int,
    va: int,
    la: int,
    pa: int,
    vb: int,
    lb: int,
    pb: int,
)
    requires
        resolved_from(resolved, results),
        distinct_ids(results),
        0 <= j < results.len(),
        usable(results[j].1),
        has_part(vs, va, la, pa),
        has_part(vs, vb, lb, pb),
        va != vb,
        part_at(vs, va, la, pa).annotation == Some(AnnotationRef::Pending(results[j].0)),
        part_at(vs, vb, lb, pb).annotation == Some(AnnotationRef::Pending(results[j].0)),
    ensures
        is_annotation_of(resolved[results[j].0], results[j].1->Some_0),
        part_at(merged(vs, resolved), va, la, pa).annotation == Some(AnnotationRef::Resolved(resolved[results[j].0])),
        part_at(merged(vs, resolved), vb, lb, pb).annotation == Some(AnnotationRef::Resolved(resolved[results[j].0])),
{
    lemma_resolved_entry(resolved, results, j);
    lemma_shared_id_same_annotation(vs, resolved, results[j].0, va, la, pa, vb, lb, pb);
}

/// The IDs whose annotations `listed` takes, in the same order.
pub open spec fn listed_keys(ids: Seq<i32>, resolved: Map<i32, Annotation>) -> Seq<i32>
    decreases ids.len(),
{
    if ids.len() == 0 {
        Seq::empty()
    } else {
        let rest = listed_keys(ids.drop_last(), resolved);
        if resolved.contains_key(ids.last()) {
            rest.push(ids.last())
        } else {
            rest
        }
    }
}

proof fn lemma_listed_shape(ids: Seq<i32>, resolved: Map<i32, Annotation>)
    ensures
        listed(ids, resolved).len() == listed_keys(ids, resolved).len(),
        forall|i: int| 0 <= i < listed(ids, resolved).len() ==> {
            let k = #[trigger] listed_keys(ids, resolved)[i];
            ids.contains(k) && resolved.contains_key(k) && listed(ids, resolved)[i] == resolved[k]
        },
        forall|k: i32| ids.contains(k) && #[trigger] resolved.contains_key(k) ==> listed(ids, resolved).contains(resolved[k]),
    decreases ids.len(),
{
    if ids.len() > 0 {
        let init = ids.drop_last();
        lemma_listed_shape(init, resolved);
        let rest = listed(init, resolved);
        let keys = listed_keys(init, resolved);
        assert forall|k: i32| init.contains(k) implies ids.contains(k) by {
            let i = choose|i: int| 0 <= i < init.len() && init[i] == k;
            assert(ids[i] == k);
        }
        assert(ids[ids.len() - 1] == ids.last());
        assert forall|i: int| 0 <= i < listed(ids, resolved).len() implies {
            let k = #[trigger] listed_keys(ids, resolved)[i];
            ids.contains(k) && resolved.contains_key(k) && listed(ids, resolved)[i] == resolved[k]
        } by {
            if i < rest.len() {
                assert(listed(ids, resolved)[i] == rest[i]);
                assert(listed_keys(ids, resolved)[i] == keys[i]);
                assert(init.contains(keys[i]));
            }
        }
        assert forall|k: i32| ids.contains(k) && #[trigger] resolved.contains_key(k) implies listed(ids, resolved).contains(
            resolved[k],
        ) by {
            let r = listed(ids, resolved);
            if k == ids.last() {
                assert(r[r.len() - 1] == resolved[k]);
            } else {
                let i = choose|i: int| 0 <= i < ids.len() && ids[i] == k;
                assert(init[i] == k);
                assert(init.contains(k));
                let m = choose|m: int| 0 <= m < rest.len() && rest[m] == resolved[k];
                assert(r[m] == rest[m]);
            }
        }
    }
}

/// Where the fetch of one ID failed (an error, or a referent without annotations), the
/// parts tagged with it become plain text and the list beside the lyrics holds nothing
/// for it; an ID whose fetch succeeded still resolves to the annotation shown for its
/// referent, on its parts and in the list.
pub proof fn lemma_failed_fetch_left_plain(
    vs: Seq<VerseModel>,
    ids: Seq<i32>,
    resolved: Map<i32, Annotation>,
    results: Seq<(i32, Option<GeniusReferentResponse>)>,
    f: int,
    j: int,
)
    requires
        resolved_from(resolved, results),
        distinct_ids(results),
        0 <= f < results.len(),
        !usable(results[f].1),
        0 <= j < results.len(),
        usable(results[j].1),
    ensures
        !resolved.contains_key(results[f].0),
        forall|v: int, l: int, p: int|
            has_part(vs, v, l, p) && part_at(vs, v, l, p).annotation == Some(AnnotationRef::Pending(results[f].0))
                ==> #[trigger] part_at(merged(vs, resolved), v, l, p).annotation is None,
        is_annotation_of(resolved[results[j].0], results[j].1->Some_0),
        forall|v: int, l: int, p: int|
            has_part(vs, v, l, p) && part_at(vs, v, l, p).annotation == Some(AnnotationRef::Pending(results[j].0))
                ==> #[trigger] part_at(merged(vs, resolved), v, l, p).annotation == Some(
                AnnotationRef::Resolved(resolved[results[j].0]),
            ),
        ids.contains(results[j].0) ==> listed(ids, resolved).contains(resolved[results[j].0]),
        forall|i: int| 0 <= i < listed(ids, resolved).len() ==> {
            let k = #[trigger] listed_keys(ids, resolved)[i];
            k != results[f].0 && ids.contains(k) && listed(ids, resolved)[i] == resolved[k]
        },
{
    lemma_resolved_entry(resolved, results, f);
    lemma_resolved_entry(resolved, results, j);
    lemma_unresolved_id_left_plain(vs, resolved, results[f].0);
    lemma_listed_shape(ids, resolved);
    assert forall|i: int| 0 <= i < listed(ids, resolved).len() implies {
        let k = #[trigger] listed_keys(ids, resolved)[i];
        k != results[f].0 && ids.contains(k) && listed(ids, resolved)[i] == resolved[k]
    } by {
        assert(resolved.contains_key(listed_keys(ids, resolved)[i]));
    }
}


} // verus!
