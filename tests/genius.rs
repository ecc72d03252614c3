use intellectual::genius::{request_url, GeniusArtist, SortMode, SubDomain};

fn artist(facebook: Option<&str>, instagram: Option<&str>, twitter: Option<&str>) -> GeniusArtist {
    GeniusArtist {
        id: 1,
        name: "Name".to_string(),
        alternate_names: None,
        image_url: String::new(),
        url: String::new(),
        description: None,
        popular_songs: None,
        facebook_name: facebook.map(str::to_string),
        instagram_name: instagram.map(str::to_string),
        twitter_name: twitter.map(str::to_string),
    }
}

#[test]
fn socials_in_order_with_at_signs() {
    let socials = artist(Some("fb"), Some("ig"), Some("tw")).socials();
    let got: Vec<(&str, &str, &str)> =
        socials.iter().map(|s| (s.name_raw.as_str(), s.name_formatted.as_str(), s.brand)).collect();
    assert_eq!(got, vec![("fb", "fb", "facebook"), ("ig", "@ig", "instagram"), ("tw", "@tw", "twitter")]);
}

#[test]
fn socials_skip_missing_and_empty_names() {
    let socials = artist(None, Some(""), Some("tw")).socials();
    assert_eq!(socials.len(), 1);
    assert_eq!(socials[0].brand, "twitter");
    assert_eq!(socials[0].name_formatted, "@tw");
}

#[test]
fn sort_mode_queries() {
    assert_eq!(SortMode::Title.to_query(), ("sort", "title"));
    assert_eq!(SortMode::Popularity.to_query(), ("sort", "popularity"));
}

#[test]
fn subdomain_prefixes() {
    assert_eq!(SubDomain::Images.value(), "images.");
    assert_eq!(SubDomain::Root.value(), "");
    assert_eq!(SubDomain::Api.value(), "");
}

#[test]
fn api_url_with_encoded_query() {
    assert_eq!(
        request_url(SubDomain::Api, "search", Some(vec![("q", "hello world&more"), ("page", "2")])),
        "https://genius.com/api/search?text_format=plain&q=hello%20world%26more&page=2"
    );
}

#[test]
fn root_and_image_urls() {
    assert_eq!(
        request_url(SubDomain::Root, "/Artist-song-lyrics", None),
        "https://genius.com/Artist-song-lyrics?text_format=plain"
    );
    assert_eq!(request_url(SubDomain::Images, "abc.png", None), "https://images.genius.com/abc.png?text_format=plain");
    assert_eq!(
        request_url(SubDomain::Api, "referents/5", Some(vec![("text_format", "html")])),
        "https://genius.com/api/referents/5?text_format=plain&text_format=html"
    );
}
