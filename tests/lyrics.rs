use intellectual::lyrics::{parse_lyrics, AnnotationRef, Lyric, LyricNode, Verse};
use intellectual::page::{
    annotation_id, classify_node, embedded_json, first_json_object, get_song_id, lyric_nodes, scrape_lyrics, song_id_from_content, DomNode,
    HtmlNode, PageError, EMBEDDED_DATA_SELECTOR, EXCLUDED_SELECTOR, LYRICS_SELECTOR, SONG_ID_SELECTOR,
};
use scraper::{ElementRef, Html, Node, Selector};

/// Walks a page's lyrics containers as the server does.
fn container_nodes(html: &str) -> Vec<DomNode> {
    let document = Html::parse_document(html);
    let containers = Selector::parse(LYRICS_SELECTOR).unwrap();
    let excluded = Selector::parse(EXCLUDED_SELECTOR).unwrap();
    let mut out = Vec::new();
    for root in document.select(&containers) {
        for n in root.descendants() {
            let node = match n.value() {
                Node::Element(e) => HtmlNode::Element(
                    e.name().to_string(),
                    e.attrs().map(|(k, v)| (k.to_string(), v.to_string())).collect(),
                ),
                Node::Text(t) => HtmlNode::Text(t.to_string()),
                _ => HtmlNode::Other,
            };
            let cut = ElementRef::wrap(n).is_some_and(|e| excluded.matches(&e));
            out.push(DomNode { node, excluded: cut, subtree_len: n.descendants().count() });
        }
    }
    out
}

/// The `content` attributes of the elements that `selector` matches, in order.
fn contents_of(html: &str, selector: &str) -> Vec<Option<String>> {
    let document = Html::parse_document(html);
    let selector = Selector::parse(selector).unwrap();
    document.select(&selector).map(|e| e.value().attr("content").map(|v| v.to_string())).collect()
}

fn text(s: &str) -> LyricNode {
    LyricNode::Text(s.to_string())
}

fn line_text(lyric: &Lyric) -> Option<String> {
    match lyric {
        Lyric::Text(parts) => Some(parts.iter().map(|p| p.text.as_str()).collect()),
        Lyric::Blank => None,
    }
}

fn lines(verse: &Verse) -> Vec<Option<String>> {
    verse.lyrics.iter().map(line_text).collect()
}

#[test]
fn two_verses_without_dangling_blank() {
    let nodes = vec![
        text("[Intro]"),
        text("Hello "),
        text("world"),
        LyricNode::LineBreak,
        LyricNode::LineBreak,
        text("[Chorus]"),
        text("Yeah"),
    ];
    let (verses, ids) = parse_lyrics(&nodes);
    assert_eq!(verses.len(), 2);
    assert_eq!(verses[0].title, "[Intro]");
    assert_eq!(lines(&verses[0]), vec![Some("Hello world".to_string())]);
    assert_eq!(verses[1].title, "[Chorus]");
    assert_eq!(lines(&verses[1]), vec![Some("Yeah".to_string())]);
    assert!(ids.is_empty());
}

#[test]
fn container_html_gives_verse_with_blank_line() {
    let document = container_nodes("<div data-lyrics-container=true>[Verse]<br/>Line one<br/><br/>Line two</div>");
    let (verses, ids) = scrape_lyrics(&document);
    assert_eq!(verses.len(), 1);
    assert_eq!(verses[0].title, "[Verse]");
    assert_eq!(
        lines(&verses[0]),
        vec![Some("Line one".to_string()), None, Some("Line two".to_string())]
    );
    assert!(ids.is_empty());
}

#[test]
fn no_text_gives_placeholder_verse() {
    let nodes = vec![LyricNode::LineBreak, LyricNode::LineBreak, LyricNode::Ignored, LyricNode::AnnotationEnd];
    let (verses, ids) = parse_lyrics(&nodes);
    assert_eq!(verses.len(), 1);
    assert_eq!(verses[0].title, "");
    assert_eq!(lines(&verses[0]), vec![Some("This song has no lyrics.".to_string())]);
    assert!(ids.is_empty());
}

#[test]
fn page_without_containers_gives_placeholder_verse() {
    let document = container_nodes("<html><body><p>Nothing here</p></body></html>");
    let (verses, ids) = scrape_lyrics(&document);
    assert_eq!(verses.len(), 1);
    assert_eq!(lines(&verses[0]), vec![Some("This song has no lyrics.".to_string())]);
    assert!(ids.is_empty());
}

#[test]
fn blank_lines_at_verse_ends_are_dropped() {
    let nodes = vec![
        text("[Verse]"),
        LyricNode::LineBreak,
        LyricNode::LineBreak,
        LyricNode::LineBreak,
        text("Only line"),
        LyricNode::LineBreak,
        LyricNode::LineBreak,
        LyricNode::LineBreak,
    ];
    let (verses, _) = parse_lyrics(&nodes);
    assert_eq!(verses.len(), 1);
    assert_eq!(lines(&verses[0]), vec![Some("Only line".to_string())]);
}

#[test]
fn title_is_trimmed() {
    let nodes = vec![text("  [Bridge]\n"), text("la")];
    let (verses, _) = parse_lyrics(&nodes);
    assert_eq!(verses.len(), 1);
    assert_eq!(verses[0].title, "[Bridge]");
}

#[test]
fn text_before_any_title_gets_untitled_verse() {
    let nodes = vec![text("first"), LyricNode::LineBreak, text("second"), text("[Outro]"), text("end")];
    let (verses, _) = parse_lyrics(&nodes);
    assert_eq!(verses.len(), 2);
    assert_eq!(verses[0].title, "");
    assert_eq!(lines(&verses[0]), vec![Some("first".to_string()), Some("second".to_string())]);
    assert_eq!(verses[1].title, "[Outro]");
}

#[test]
fn annotations_tag_parts_and_ids_are_deduplicated() {
    let nodes = vec![
        text("[Verse]"),
        LyricNode::AnnotationStart(7),
        text("annotated"),
        LyricNode::AnnotationEnd,
        text(" plain"),
        LyricNode::LineBreak,
        LyricNode::AnnotationStart(9),
        text("other"),
        LyricNode::AnnotationEnd,
        LyricNode::LineBreak,
        LyricNode::AnnotationStart(7),
        text("again"),
    ];
    let (verses, ids) = parse_lyrics(&nodes);
    assert_eq!(ids, vec![7, 9]);
    let v = &verses[0];
    assert_eq!(v.lyrics.len(), 3);
    match &v.lyrics[0] {
        Lyric::Text(parts) => {
            assert_eq!(parts.len(), 2);
            assert_eq!(parts[0].annotation, Some(AnnotationRef::Pending(7)));
            assert_eq!(parts[1].annotation, None);
        }
        Lyric::Blank => panic!("expected a text line"),
    }
    match &v.lyrics[2] {
        Lyric::Text(parts) => assert_eq!(parts[0].annotation, Some(AnnotationRef::Pending(7))),
        Lyric::Blank => panic!("expected a text line"),
    }
}

#[test]
fn scraped_annotation_links_and_markers() {
    let document = container_nodes(
        "<div data-lyrics-container=\"true\">[Hook]<br><a href=\"/12345/Some-song\">annotated <i>text</i></a><span tabindex=\"0\"></span> plain</div>",
    );
    let (verses, ids) = scrape_lyrics(&document);
    assert_eq!(ids, vec![12345]);
    assert_eq!(verses.len(), 1);
    match &verses[0].lyrics[0] {
        Lyric::Text(parts) => {
            let texts: Vec<&str> = parts.iter().map(|p| p.text.as_str()).collect();
            assert_eq!(texts, vec!["annotated ", "text", " plain"]);
            assert_eq!(parts[0].annotation, Some(AnnotationRef::Pending(12345)));
            assert_eq!(parts[1].annotation, Some(AnnotationRef::Pending(12345)));
            assert_eq!(parts[2].annotation, None);
        }
        Lyric::Blank => panic!("expected a text line"),
    }
}

#[test]
fn excluded_regions_are_skipped() {
    let document = container_nodes(
        "<div data-lyrics-container=\"true\"><div data-exclude-from-selection=\"true\"><p>[Summary]</p><p>About</p></div>[Chorus]<br>La</div>",
    );
    let (verses, _) = scrape_lyrics(&document);
    assert_eq!(verses.len(), 1);
    assert_eq!(verses[0].title, "[Chorus]");
    assert_eq!(lines(&verses[0]), vec![Some("La".to_string())]);
}

#[test]
fn lyric_nodes_skips_whole_subtree() {
    let nodes = vec![
        DomNode { node: HtmlNode::Element("div".to_string(), vec![]), excluded: true, subtree_len: 2 },
        DomNode { node: HtmlNode::Text("hidden".to_string()), excluded: false, subtree_len: 1 },
        DomNode { node: HtmlNode::Element("br".to_string(), vec![]), excluded: false, subtree_len: 1 },
        DomNode { node: HtmlNode::Text("shown".to_string()), excluded: false, subtree_len: 1 },
        DomNode { node: HtmlNode::Other, excluded: false, subtree_len: 1 },
    ];
    assert_eq!(
        lyric_nodes(&nodes),
        vec![LyricNode::LineBreak, LyricNode::Text("shown".to_string()), LyricNode::Ignored]
    );
}

#[test]
fn annotation_ids_from_hrefs() {
    assert_eq!(annotation_id("/12345/Artist-song"), Some(12345));
    assert_eq!(annotation_id("//77/x"), None);
    assert_eq!(annotation_id("77/x"), None);
    assert_eq!(annotation_id("/77/"), Some(77));
    assert_eq!(annotation_id("/12345"), None);
    assert_eq!(annotation_id("/abc/x"), None);
    assert_eq!(annotation_id("//x"), None);
    assert_eq!(annotation_id("/2147483647/x"), Some(i32::MAX));
    assert_eq!(annotation_id("/2147483648/x"), None);
}

#[test]
fn classify_elements() {
    let a = HtmlNode::Element("a".to_string(), vec![("href".to_string(), "/5/x".to_string())]);
    assert_eq!(classify_node(&a), LyricNode::AnnotationStart(5));
    let bad = HtmlNode::Element("a".to_string(), vec![("href".to_string(), "https://x.com".to_string())]);
    assert_eq!(classify_node(&bad), LyricNode::Ignored);
    let marker = HtmlNode::Element("span".to_string(), vec![("tabindex".to_string(), "0".to_string())]);
    assert_eq!(classify_node(&marker), LyricNode::AnnotationEnd);
    let span = HtmlNode::Element("span".to_string(), vec![("tabindex".to_string(), "1".to_string())]);
    assert_eq!(classify_node(&span), LyricNode::Ignored);
    assert_eq!(classify_node(&HtmlNode::Element("br".to_string(), vec![])), LyricNode::LineBreak);
}

#[test]
fn song_id_from_meta_tag() {
    let page = "<html><head><meta property=\"twitter:app:url:iphone\" content=\"genius://songs/378195\"></head><body></body></html>";
    assert_eq!(get_song_id(&contents_of(page, SONG_ID_SELECTOR)), Ok(378195));
    let missing = "<html><head></head><body></body></html>";
    assert_eq!(get_song_id(&contents_of(missing, SONG_ID_SELECTOR)), Err(PageError::MissingSongIdTag));
    let no_content = "<html><head><meta property=\"twitter:app:url:iphone\"></head></html>";
    assert_eq!(get_song_id(&contents_of(no_content, SONG_ID_SELECTOR)), Err(PageError::MissingSongIdContent));
    let bad = "<html><head><meta property=\"twitter:app:url:iphone\" content=\"genius://songs/x1\"></head></html>";
    assert_eq!(get_song_id(&contents_of(bad, SONG_ID_SELECTOR)), Err(PageError::InvalidSongId));
}

#[test]
fn song_id_content_parsing() {
    assert_eq!(song_id_from_content("genius://songs/42"), Some(42));
    assert_eq!(song_id_from_content("genius://albums/42"), None);
    assert_eq!(song_id_from_content("genius://songs/"), None);
    assert_eq!(song_id_from_content("genius://songs/+5"), Some(5));
    assert_eq!(song_id_from_content("genius://songs/+"), None);
    assert_eq!(song_id_from_content("genius://songs/++5"), None);
    assert_eq!(song_id_from_content("genius://songs/-5"), None);
}

#[test]
fn embedded_json_is_first_json_content() {
    let page = "<html><head><meta name=\"a\" content=\"plain\"><meta name=\"b\" content='{\"artist\":{\"id\":1}}'><meta name=\"c\" content='{\"x\":2}'></head></html>";
    assert_eq!(embedded_json(&contents_of(page, EMBEDDED_DATA_SELECTOR)), Ok("{\"artist\":{\"id\":1}}".to_string()));
    let none = "<html><head><meta name=\"a\" content=\"{x}\"></head></html>";
    assert_eq!(embedded_json(&contents_of(none, EMBEDDED_DATA_SELECTOR)), Err(PageError::MissingEmbeddedData));
    let contents = vec![None, Some("{}".to_string()), Some("{\"k\":1}".to_string())];
    assert_eq!(first_json_object(&contents), Some(2));
    assert_eq!(first_json_object(&vec![]), None);
}

#[test]
fn link_without_text_gives_no_annotation_id() {
    let nodes = container_nodes("<div data-lyrics-container=\"true\"><a href=\"/5/x\"></a><br></div>");
    let (verses, ids) = scrape_lyrics(&nodes);
    assert_eq!(verses.len(), 1);
    assert_eq!(lines(&verses[0]), vec![Some("This song has no lyrics.".to_string())]);
    assert!(ids.is_empty());
}

#[test]
fn ids_follow_tagged_parts_in_order() {
    let nodes = vec![
        LyricNode::AnnotationStart(3),
        LyricNode::AnnotationEnd,
        LyricNode::AnnotationStart(8),
        text("eight"),
        LyricNode::AnnotationStart(3),
        text("three"),
        LyricNode::AnnotationStart(8),
        text("eight again"),
    ];
    let (_, ids) = parse_lyrics(&nodes);
    assert_eq!(ids, vec![8, 3]);
}

#[test]
fn title_trims_unicode_white_space() {
    let nodes = vec![text("\u{a0}[Bridge]\u{3000}"), text("la")];
    let (verses, _) = parse_lyrics(&nodes);
    assert_eq!(verses.len(), 1);
    assert_eq!(verses[0].title, "[Bridge]");
}
