use faptopia::gallery::generate_gallery;
use faptopia::gallery::render_gallery;
use faptopia::media::{media_items_from_urls, MediaItem, MediaKind, Section};

fn video_section(label: &str, urls: &[&str]) -> Section {
    let items = urls
        .iter()
        .map(|u| MediaItem::new((*u).to_string(), MediaKind::Video))
        .collect();
    Section::new(label.to_string(), items)
}

fn embed_section(label: &str, urls: &[&str]) -> Section {
    let items = urls
        .iter()
        .map(|u| MediaItem::new((*u).to_string(), MediaKind::Embed))
        .collect();
    Section::new(label.to_string(), items)
}

fn count(haystack: &str, needle: &str) -> usize {
    haystack.matches(needle).count()
}

#[test]
fn one_video_element_per_item_in_order() {
    let sections = vec![video_section(
        "Thread 1",
        &["https://i.4cdn.org/gif/1.mp4", "https://i.4cdn.org/gif/2.mp4", "https://i.4cdn.org/gif/3.mp4"],
    )];
    let html = generate_gallery(&sections);
    assert_eq!(count(&html, "<video "), 3);
    assert_eq!(count(&html, "<iframe "), 0);
    assert_eq!(count(&html, "class=\"gallery-item\""), 3);
    let p1 = html.find("https://i.4cdn.org/gif/1.mp4").unwrap();
    let p2 = html.find("https://i.4cdn.org/gif/2.mp4").unwrap();
    let p3 = html.find("https://i.4cdn.org/gif/3.mp4").unwrap();
    assert!(p1 < p2 && p2 < p3);
}

#[test]
fn one_iframe_element_per_item_in_order() {
    let sections = vec![embed_section("r/pics", &["https://a.example/x", "https://a.example/y"])];
    let html = generate_gallery(&sections);
    assert_eq!(count(&html, "<iframe "), 2);
    assert_eq!(count(&html, "<video "), 0);
    let px = html.find("https://a.example/x").unwrap();
    let py = html.find("https://a.example/y").unwrap();
    assert!(px < py);
}

#[test]
fn exactly_first_section_active_rest_hidden() {
    let sections = vec![
        video_section("Thread 1", &["https://v/1.mp4"]),
        video_section("Thread 2", &["https://v/2.mp4"]),
        embed_section("r/pics", &["https://e/3"]),
    ];
    let html = generate_gallery(&sections);
    assert_eq!(count(&html, "<div class=\"gallery-section active\""), 1);
    assert_eq!(count(&html, "<div class=\"gallery-section hidden\""), 2);
    assert_eq!(count(&html, "<button class=\"tab-button active\""), 1);
    let active = html.find("<div class=\"gallery-section active\"").unwrap();
    let hidden = html.find("<div class=\"gallery-section hidden\"").unwrap();
    assert!(active < hidden);
}

#[test]
fn single_section_is_active() {
    let sections = vec![video_section("Thread 9", &["https://v/9.mp4"])];
    let html = generate_gallery(&sections);
    assert_eq!(count(&html, "<div class=\"gallery-section active\""), 1);
    assert_eq!(count(&html, "<div class=\"gallery-section hidden\""), 0);
}

#[test]
fn first_item_eager_rest_lazy_videos() {
    let sections = vec![video_section("T", &["https://v/1.mp4", "https://v/2.mp4", "https://v/3.mp4"])];
    let html = generate_gallery(&sections);
    assert_eq!(count(&html, "autoplay muted"), 1);
    assert_eq!(count(&html, "preload=\"auto\""), 1);
    assert_eq!(count(&html, "preload=\"none\""), 2);
    let eager = html.find("preload=\"auto\"").unwrap();
    let lazy = html.find("preload=\"none\"").unwrap();
    assert!(eager < lazy);
}

#[test]
fn first_item_eager_rest_lazy_single_item() {
    let sections = vec![video_section("T", &["https://v/1.mp4"])];
    let html = generate_gallery(&sections);
    assert_eq!(count(&html, "preload=\"auto\""), 1);
    assert_eq!(count(&html, "preload=\"none\""), 0);
}

#[test]
fn first_item_eager_rest_lazy_iframes() {
    let sections = vec![embed_section("R", &["https://e/1", "https://e/2"])];
    let html = generate_gallery(&sections);
    assert_eq!(count(&html, "loading=\"eager\""), 1);
    assert_eq!(count(&html, "loading=\"lazy\""), 1);
}

#[test]
fn eager_item_is_per_section() {
    let sections = vec![
        video_section("A", &["https://v/1.mp4", "https://v/2.mp4"]),
        video_section("B", &["https://v/3.mp4", "https://v/4.mp4"]),
    ];
    let html = generate_gallery(&sections);
    assert_eq!(count(&html, "preload=\"auto\""), 2);
    assert_eq!(count(&html, "preload=\"none\""), 2);
}

#[test]
fn generation_is_deterministic() {
    let make = || {
        vec![
            video_section("Thread 1", &["https://v/1.mp4", "https://v/2.mp4"]),
            embed_section("r/pics", &["https://e/3"]),
        ]
    };
    let first = generate_gallery(&make());
    let second = generate_gallery(&make());
    assert_eq!(first, second);
    assert_eq!(first.as_bytes(), second.as_bytes());
}

#[test]
fn composite_position_index_present() {
    let sections = vec![
        video_section("A", &["https://v/1.mp4", "https://v/2.mp4"]),
        video_section("B", &["https://v/3.mp4"]),
    ];
    let html = generate_gallery(&sections);
    assert!(html.contains("data-index=\"0-0\""));
    assert!(html.contains("data-index=\"0-1\""));
    assert!(html.contains("data-index=\"1-0\""));
}

#[test]
fn script_carries_section_count() {
    let sections = vec![
        video_section("A", &["https://v/1.mp4"]),
        video_section("B", &["https://v/2.mp4"]),
        video_section("C", &["https://v/3.mp4"]),
    ];
    let html = generate_gallery(&sections);
    assert!(html.contains("const TOTAL_SECTIONS = 3;"));
}

#[test]
fn duplicate_labels_make_two_tabs() {
    let sections = vec![
        video_section("Thread 1", &["https://v/1.mp4"]),
        video_section("Thread 1", &["https://v/2.mp4"]),
    ];
    let html = generate_gallery(&sections);
    assert_eq!(count(&html, ">Thread 1</button>"), 2);
}

#[test]
fn empty_section_list_renders_nothing() {
    assert!(render_gallery(&Vec::new()).is_none());
}

#[test]
fn nonempty_section_list_renders_the_gallery() {
    let sections = vec![video_section("A", &["https://v/1.mp4"])];
    let rendered = render_gallery(&sections).unwrap();
    let direct = generate_gallery(&sections);
    assert_eq!(rendered, direct);
}

#[test]
fn empty_items_section_still_renders_tab() {
    let sections = vec![video_section("Empty", &[])];
    let html = generate_gallery(&sections);
    assert!(html.contains(">Empty</button>"));
    assert_eq!(count(&html, "<video "), 0);
    assert_eq!(count(&html, "<div class=\"gallery-section active\""), 1);
}

#[test]
fn media_items_keep_urls_and_kind() {
    let urls = vec!["https://v/1.mp4".to_string(), "https://v/2.mp4".to_string()];
    let items = media_items_from_urls(urls, MediaKind::Video);
    assert_eq!(items.len(), 2);
    assert_eq!(items[0].url, "https://v/1.mp4");
    assert!(matches!(items[1].kind, MediaKind::Video));
}
