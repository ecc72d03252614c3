use intellectual::api::{image_path, image_size};
use intellectual::resource::content_type;
use intellectual::search::nav_pages;
use intellectual::settings::{settings_or_default, Settings, Theme};

#[test]
fn content_types_by_extension() {
    assert_eq!(content_type("style/main.css"), "text/css");
    assert_eq!(content_type("icon.svg"), "image/svg+xml");
    assert_eq!(content_type("font/inter.woff2"), "font/woff2");
    assert_eq!(content_type("theme/themes.json"), "application/json");
    assert_eq!(content_type("README"), "text/plain");
    assert_eq!(content_type("archive.css.gz"), "text/plain");
}

#[test]
fn nav_pages_around_current() {
    assert_eq!(nav_pages(1), vec![1, 2, 3, 4]);
    assert_eq!(nav_pages(10), vec![7, 8, 9, 10, 11, 12, 13]);
    assert_eq!(nav_pages(99), vec![96, 97, 98, 99, 100]);
    assert_eq!(nav_pages(0), vec![1, 2, 3]);
    assert_eq!(nav_pages(200), Vec::<u8>::new());
}

#[test]
fn image_path_is_last_segment() {
    assert_eq!(image_path("https://images.genius.com/abc.png"), "abc.png");
    assert_eq!(image_path("abc.png"), "abc.png");
}

#[test]
fn image_size_is_clamped() {
    assert_eq!(image_size(None, 300), 300);
    assert_eq!(image_size(Some(0), 300), 1);
    assert_eq!(image_size(Some(5000), 300), 1000);
    assert_eq!(image_size(Some(5000), 2000), 2000);
    assert_eq!(image_size(Some(64), 2000), 64);
}

fn themes() -> Vec<Theme> {
    vec![
        Theme { id: "github-dark".to_string(), name: "GitHub Dark".to_string() },
        Theme { id: "nord".to_string(), name: "Nord".to_string() },
    ]
}

#[test]
fn settings_validity() {
    assert!(Settings { theme: "nord".to_string() }.is_valid(&themes()));
    assert!(!Settings { theme: "pink".to_string() }.is_valid(&themes()));
    assert_eq!(Settings::default().theme, "github-dark");
}

#[test]
fn settings_fall_back_to_default() {
    let nord = Settings { theme: "nord".to_string() };
    assert_eq!(settings_or_default(Some(nord.clone()), &themes()), nord);
    assert_eq!(settings_or_default(Some(Settings { theme: "pink".to_string() }), &themes()).theme, "github-dark");
    assert_eq!(settings_or_default(None, &themes()).theme, "github-dark");
}
