use intellectual::links::rewrite_links;

#[test]
fn image_links_go_through_proxy() {
    assert_eq!(rewrite_links("<img src=\"https://images.genius.com/abc.png\">"), "<img src=\"/api/image?url=/abc.png\">");
    assert_eq!(rewrite_links("https://images.rapgenius.com/x.jpg"), "/api/image?url=/x.jpg");
}

#[test]
fn youtube_links_lose_cookies() {
    assert_eq!(
        rewrite_links("<iframe src=\"https://www.youtube.com/embed/abc\"></iframe>"),
        "<iframe src=\"https://www.youtube-nocookie.com/embed/abc\"></iframe>"
    );
}

#[test]
fn site_links_become_relative() {
    assert_eq!(rewrite_links("<a href=\"https://genius.com/Artist-song-lyrics\">"), "<a href=\"/Artist-song-lyrics\">");
    assert_eq!(rewrite_links("<a href=\"http://www.genius.com/artists/X\">"), "<a href=\"/artists/X\">");
}

#[test]
fn other_text_is_untouched() {
    assert_eq!(rewrite_links("plain <b>text</b> https://example.com/"), "plain <b>text</b> https://example.com/");
    assert_eq!(rewrite_links(""), "");
}

#[test]
fn rewrite_twice_same_as_once() {
    let inputs = [
        "<img src=\"https://images.genius.com/a.png\"> <a href=\"https://genius.com/x\">x</a>",
        "https://www.youtube.com/watch?v=1 https://images.rapgenius.com/b.gif",
        "nothing to do",
    ];
    for s in inputs {
        let once = rewrite_links(s);
        assert_eq!(rewrite_links(&once), once);
    }
}
