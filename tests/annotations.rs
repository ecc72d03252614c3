use std::collections::HashMap;

use intellectual::annotations::{annotation_from_referent, annotation_list, attach_annotations, collect_resolved, merge};
use intellectual::genius::{GeniusAnnotation, GeniusAnnotationBody, GeniusReferent, GeniusReferentResponse};
use intellectual::lyrics::{Annotation, AnnotationRef, Lyric, LyricPart, Verse};

fn annotation(id: i32) -> Annotation {
    Annotation { id, quote: format!("quote {id}"), body: format!("<p>body {id}</p>"), votes: id * 2 }
}

fn part(text: &str, id: Option<i32>) -> LyricPart {
    LyricPart { text: text.to_string(), annotation: id.map(AnnotationRef::Pending) }
}

fn verse(title: &str, parts: Vec<LyricPart>) -> Verse {
    Verse { title: title.to_string(), lyrics: vec![Lyric::Text(parts), Lyric::Blank] }
}

fn part_annotation(verses: &[Verse], v: usize, p: usize) -> Option<AnnotationRef> {
    match &verses[v].lyrics[0] {
        Lyric::Text(parts) => parts[p].annotation.clone(),
        Lyric::Blank => panic!("expected a text line"),
    }
}

fn referent(id: i32, html: &str) -> GeniusReferentResponse {
    GeniusReferentResponse {
        referent: GeniusReferent {
            id,
            fragment: format!("fragment {id}"),
            annotations: vec![
                GeniusAnnotation { id: id + 1000, body: GeniusAnnotationBody { html: html.to_string() }, votes_total: 12 },
                GeniusAnnotation { id: id + 2000, body: GeniusAnnotationBody { html: "second".to_string() }, votes_total: 1 },
            ],
        },
    }
}

#[test]
fn shared_id_in_two_verses_gets_equal_copies() {
    let mut verses = vec![verse("[A]", vec![part("x", Some(5))]), verse("[B]", vec![part("y", Some(5))])];
    let mut resolved = HashMap::new();
    resolved.insert(5, annotation(5));
    merge(&mut verses, &resolved);
    let first = part_annotation(&verses, 0, 0);
    let second = part_annotation(&verses, 1, 0);
    assert_eq!(first, Some(AnnotationRef::Resolved(annotation(5))));
    assert_eq!(first, second);
    if let (Some(AnnotationRef::Resolved(a)), Some(AnnotationRef::Resolved(b))) = (&first, &second) {
        assert_ne!(a.body.as_ptr(), b.body.as_ptr());
    }
}

#[test]
fn failed_id_left_plain_others_resolved() {
    let mut verses = vec![
        verse("[A]", vec![part("x", Some(42)), part("y", Some(7)), part("z", None)]),
        verse("[B]", vec![part("w", Some(42))]),
    ];
    let results = vec![(42, None), (7, Some(referent(7, "<b>seven</b>")))];
    let resolved = collect_resolved(&results);
    assert!(!resolved.contains_key(&42));
    merge(&mut verses, &resolved);
    assert_eq!(part_annotation(&verses, 0, 0), None);
    assert_eq!(part_annotation(&verses, 1, 0), None);
    assert_eq!(part_annotation(&verses, 0, 2), None);
    match part_annotation(&verses, 0, 1) {
        Some(AnnotationRef::Resolved(a)) => {
            assert_eq!(a.id, 7);
            assert_eq!(a.body, "<b>seven</b>");
        }
        other => panic!("unexpected {other:?}"),
    }
    assert_eq!(verses[0].title, "[A]");
    assert_eq!(verses[0].lyrics.len(), 2);
    assert_eq!(verses[0].lyrics[1], Lyric::Blank);
}

#[test]
fn referent_uses_first_annotation_with_rewritten_body() {
    let value = referent(3, "<img src=\"https://images.genius.com/a.png\">");
    let a = annotation_from_referent(&value).unwrap();
    assert_eq!(a.id, 3);
    assert_eq!(a.quote, "fragment 3");
    assert_eq!(a.votes, 12);
    assert_eq!(a.body, "<img src=\"/api/image?url=/a.png\">");
}

#[test]
fn referent_without_annotations_gives_none() {
    let value = GeniusReferentResponse {
        referent: GeniusReferent { id: 1, fragment: "f".to_string(), annotations: vec![] },
    };
    assert_eq!(annotation_from_referent(&value), None);
    let resolved = collect_resolved(&vec![(1, Some(value))]);
    assert!(resolved.is_empty());
}

#[test]
fn annotation_list_follows_ids() {
    let mut resolved = HashMap::new();
    resolved.insert(2, annotation(2));
    resolved.insert(9, annotation(9));
    let list = annotation_list(&vec![9, 4, 2], &resolved);
    assert_eq!(list, vec![annotation(9), annotation(2)]);
}

#[test]
fn attach_annotations_merges_and_lists() {
    let mut verses = vec![verse("[A]", vec![part("x", Some(1)), part("y", Some(2))])];
    let results = vec![(1, Some(referent(1, "one"))), (2, None)];
    let list = attach_annotations(&mut verses, &vec![1, 2], &results);
    assert_eq!(list.len(), 1);
    assert_eq!(list[0].id, 1);
    assert_eq!(part_annotation(&verses, 0, 1), None);
    assert!(matches!(part_annotation(&verses, 0, 0), Some(AnnotationRef::Resolved(_))));
}
