use faptopia::args::split_source_arg;
use faptopia::imageboard::{media_url, thread_json_url, video_links_from_posts, Post};
use faptopia::listing::{extract_redgifs_id, listing_url, short_ids_from_children};
use faptopia::resolver::{bearer_value, collect_resolved, gif_url, lowercase_id, pick_media_url};

#[test]
fn qualifying_post_yields_canonical_url() {
    let posts = vec![Post::new(Some(".mp4".to_string()), Some(123456789))];
    let links = video_links_from_posts("gif", &posts);
    assert_eq!(links, vec!["https://i.4cdn.org/gif/123456789.mp4".to_string()]);
}

#[test]
fn post_missing_tim_yields_nothing() {
    let posts = vec![Post::new(Some(".mp4".to_string()), None)];
    assert!(video_links_from_posts("gif", &posts).is_empty());
}

#[test]
fn post_missing_ext_yields_nothing() {
    let posts = vec![Post::new(None, Some(42))];
    assert!(video_links_from_posts("gif", &posts).is_empty());
}

#[test]
fn post_with_other_extension_yields_nothing() {
    let posts = vec![Post::new(Some(".jpg".to_string()), Some(42))];
    assert!(video_links_from_posts("gif", &posts).is_empty());
}

#[test]
fn webm_posts_qualify_and_order_is_kept() {
    let posts = vec![
        Post::new(Some(".webm".to_string()), Some(1)),
        Post::new(Some(".gif".to_string()), Some(2)),
        Post::new(Some(".mp4".to_string()), Some(3)),
    ];
    let links = video_links_from_posts("gif", &posts);
    assert_eq!(
        links,
        vec![
            "https://i.4cdn.org/gif/1.webm".to_string(),
            "https://i.4cdn.org/gif/3.mp4".to_string(),
        ]
    );
}

#[test]
fn media_url_concatenates_the_parts() {
    assert_eq!(media_url("gif", 555, ".webm"), "https://i.4cdn.org/gif/555.webm");
}

#[test]
fn thread_json_url_shape() {
    assert_eq!(thread_json_url("gif", 570368), "https://a.4cdn.org/gif/thread/570368.json");
}

#[test]
fn embed_snippet_yields_captured_id() {
    let html = "<iframe src=\"https://www.redgifs.com/ifr/AbC123-xyZ\" width=\"640\"></iframe>";
    assert_eq!(extract_redgifs_id(html), Some("AbC123-xyZ".to_string()));
}

#[test]
fn snippet_without_match_yields_nothing() {
    let html = "<iframe src=\"https://www.example.com/watch/AbC123\"></iframe>";
    assert_eq!(extract_redgifs_id(html), None);
}

#[test]
fn prefix_without_id_characters_is_no_match() {
    let html = "see https://www.redgifs.com/ifr/ and nothing else";
    assert_eq!(extract_redgifs_id(html), None);
}

#[test]
fn leftmost_match_wins() {
    let html = "https://www.redgifs.com/ifr/first and https://www.redgifs.com/ifr/second";
    assert_eq!(extract_redgifs_id(html), Some("first".to_string()));
}

#[test]
fn id_run_stops_at_first_other_character() {
    let html = "x https://www.redgifs.com/ifr/Ab_c-9\" tail";
    assert_eq!(extract_redgifs_id(html), Some("Ab_c-9".to_string()));
}

#[test]
fn three_children_one_matching_embed() {
    let contents = vec![
        Some("<iframe src=\"https://www.redgifs.com/ifr/OnlyOne\"></iframe>".to_string()),
        Some("<p>no embed link here</p>".to_string()),
        None,
    ];
    let ids = short_ids_from_children(&contents);
    assert_eq!(ids, vec!["OnlyOne".to_string()]);
}

#[test]
fn listing_url_shape() {
    assert_eq!(
        listing_url("hotwife", "top", "month"),
        "https://www.reddit.com/r/hotwife/top/.json?t=month"
    );
}

#[test]
fn malformed_two_part_argument_is_rejected() {
    assert!(split_source_arg("hotwife:top").is_none());
}

#[test]
fn four_part_argument_is_rejected() {
    assert!(split_source_arg("a:b:c:d").is_none());
}

#[test]
fn no_colon_argument_is_rejected() {
    assert!(split_source_arg("hotwife").is_none());
}

#[test]
fn well_formed_argument_splits_into_three() {
    let (a, b, c) = split_source_arg("hotwife:top:month").unwrap();
    assert_eq!(a, "hotwife");
    assert_eq!(b, "top");
    assert_eq!(c, "month");
}

#[test]
fn empty_parts_still_count_as_three() {
    let (a, b, c) = split_source_arg("::").unwrap();
    assert_eq!(a, "");
    assert_eq!(b, "");
    assert_eq!(c, "");
}

#[test]
fn lowercase_id_folds_ascii_uppercase_only() {
    assert_eq!(lowercase_id("AbC123-xyZ"), "abc123-xyz");
    assert_eq!(lowercase_id("already_low"), "already_low");
}

#[test]
fn gif_url_lowercases_the_identifier() {
    assert_eq!(gif_url("AbC123-xyZ"), "https://api.redgifs.com/v2/gifs/abc123-xyz");
}

#[test]
fn bearer_value_shape() {
    assert_eq!(bearer_value("tok123"), "Bearer tok123");
}

#[test]
fn hd_variant_is_preferred() {
    assert_eq!(
        pick_media_url(Some("https://hd/v.mp4".to_string()), "https://sd/v.mp4".to_string()),
        "https://hd/v.mp4"
    );
}

#[test]
fn sd_variant_is_the_fallback() {
    assert_eq!(pick_media_url(None, "https://sd/v.mp4".to_string()), "https://sd/v.mp4");
}

#[test]
fn failed_lookups_are_skipped_in_order() {
    let results = vec![
        Some("https://m/1.mp4".to_string()),
        None,
        Some("https://m/3.mp4".to_string()),
    ];
    let urls = collect_resolved(results);
    assert_eq!(urls, vec!["https://m/1.mp4".to_string(), "https://m/3.mp4".to_string()]);
}
