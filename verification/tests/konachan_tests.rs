use wally::cli::{Rating, Resolution, Source, WallyConfig};
use wally::history::HistoryEntry;
use wally::sources::konachan::{
    convert_post, detect_file_type, matches_resolution, page_query, tag_query, KonachanPost,
    KonachanSearch, LAST_PAGE,
};
use wally::sources::SearchError;

fn config(tags: &str, rating: Rating, resolution: Resolution) -> WallyConfig {
    WallyConfig {
        directory: "/tmp/walls".to_string(),
        source: Source::Konachan,
        rating,
        resolution,
        tags: tags.to_string(),
        amount: 2,
    }
}

fn post(id: u64, width: u32, height: u32, file_url: Option<&str>) -> KonachanPost {
    KonachanPost {
        id,
        rating: "s".to_string(),
        width,
        height,
        file_url: file_url.map(|s| s.to_string()),
        preview_url: Some("https://konachan.com/preview.jpg".to_string()),
        sample_url: None,
        jpeg_url: None,
    }
}

fn history_entry(id: &str) -> HistoryEntry {
    HistoryEntry {
        id: id.to_string(),
        source: "konachan".to_string(),
        url: format!("https://konachan.com/post/show/{id}"),
        path: "/tmp/walls/x.jpg".to_string(),
        width: 1920,
        height: 1080,
        file_type: "image/jpeg".to_string(),
    }
}

#[test]
fn tag_query_puts_user_rating_and_size_tags_together() {
    let c = config(" blue sky , ,sunset", Rating::Sketchy, Resolution::Minimum(1920, 1080));
    assert_eq!(
        tag_query(&c),
        "blue_sky sunset rating:s rating:q width:>=1920 height:>=1080"
    );
}

#[test]
fn tag_query_exact_size_without_user_tags() {
    let c = config("   ", Rating::Nsfw, Resolution::Exact(2560, 1440));
    assert_eq!(tag_query(&c), "rating:e width:2560 height:1440");
}

#[test]
fn tag_query_ratio_adds_no_size_tags() {
    let c = config("", Rating::Sfw, Resolution::Ratio(16, 9));
    assert_eq!(tag_query(&c), "rating:s");
}

#[test]
fn page_query_holds_limit_page_and_tags() {
    let c = config("sky", Rating::Sfw, Resolution::Ratio(16, 9));
    let q = page_query(&c, 7);
    assert_eq!(
        q,
        vec![
            ("limit".to_string(), "100".to_string()),
            ("page".to_string(), "7".to_string()),
            ("tags".to_string(), "sky rating:s".to_string()),
        ]
    );
}

#[test]
fn resolution_is_decided_for_exact_and_minimum_sizes() {
    let p = post(1, 1920, 1080, Some("a.jpg"));
    assert_eq!(matches_resolution(&p, &Resolution::Exact(1920, 1080)), Some(true));
    assert_eq!(matches_resolution(&p, &Resolution::Exact(1920, 1200)), Some(false));
    assert_eq!(matches_resolution(&p, &Resolution::Minimum(1280, 720)), Some(true));
    assert_eq!(matches_resolution(&p, &Resolution::Minimum(2560, 720)), Some(false));
    assert_eq!(matches_resolution(&p, &Resolution::Ratio(16, 9)), None);
}

#[test]
fn file_type_comes_from_the_extension() {
    assert_eq!(detect_file_type("https://x/a.png"), "image/png");
    assert_eq!(detect_file_type("https://x/a.webp?v=2"), "image/webp");
    assert_eq!(detect_file_type("https://x/a.gif"), "image/gif");
    assert_eq!(detect_file_type("https://x/a.jpg"), "image/jpeg");
    assert_eq!(detect_file_type("https://x/a.png.txt"), "image/jpeg");
    assert_eq!(detect_file_type("https://x/a?f=.png"), "image/jpeg");
}

#[test]
fn post_is_converted_to_a_wallpaper() {
    let mut p = post(42, 1920, 1080, Some("https://konachan.com/image/a.png"));
    p.sample_url = Some("https://konachan.com/sample.jpg".to_string());
    let w = convert_post(p).unwrap();
    assert_eq!(w.id, "42");
    assert_eq!(w.url, "https://konachan.com/post/show/42");
    assert_eq!(w.purity, "s");
    assert_eq!(w.category, "anime");
    assert_eq!(w.dimension_x, 1920);
    assert_eq!(w.dimension_y, 1080);
    assert_eq!(w.resolution, "1920x1080");
    assert_eq!(w.path, "https://konachan.com/image/a.png");
    assert_eq!(w.file_type, "image/png");
    assert_eq!(w.thumbs.large, "https://konachan.com/sample.jpg");
    assert_eq!(w.thumbs.original, "https://konachan.com/sample.jpg");
    assert_eq!(w.thumbs.small, "https://konachan.com/sample.jpg");
}

#[test]
fn post_falls_back_to_jpeg_and_preview() {
    let mut p = post(5, 10, 20, None);
    p.jpeg_url = Some("https://konachan.com/jpeg/b.jpg".to_string());
    let w = convert_post(p).unwrap();
    assert_eq!(w.path, "https://konachan.com/jpeg/b.jpg");
    assert_eq!(w.thumbs.small, "https://konachan.com/preview.jpg");
    let mut q = post(6, 10, 20, Some("https://konachan.com/c.gif"));
    q.preview_url = None;
    let w = convert_post(q).unwrap();
    assert_eq!(w.thumbs.large, "https://konachan.com/c.gif");
}

#[test]
fn post_without_file_is_dropped() {
    assert!(convert_post(post(7, 10, 20, None)).is_none());
}

#[test]
fn search_collects_new_posts_and_skips_known_ones() {
    let mut s = KonachanSearch::new(2);
    assert_eq!(s.next_page(), Some(1));
    let posts = vec![
        post(1, 1920, 1080, Some("https://konachan.com/1.jpg")),
        post(2, 800, 600, Some("https://konachan.com/2.jpg")),
        post(3, 1920, 1080, None),
        post(4, 1920, 1080, Some("https://konachan.com/4.jpg")),
    ];
    let fits = vec![false; 4];
    let history = vec![history_entry("1")];
    s.receive_page(posts, &fits, &Resolution::Minimum(1280, 720), &history);
    assert_eq!(s.skipped(), 1);
    assert_eq!(s.next_page(), Some(2));
    let posts = vec![
        post(8, 1920, 1080, Some("https://konachan.com/8.jpg")),
        post(9, 1920, 1080, Some("https://konachan.com/9.jpg")),
    ];
    s.receive_page(posts, &vec![false; 2], &Resolution::Minimum(1280, 720), &history);
    assert_eq!(s.next_page(), None);
    let found = s.finish().unwrap();
    let ids: Vec<&str> = found.iter().map(|w| w.id.as_str()).collect();
    assert_eq!(ids, vec!["4", "8"]);
}

#[test]
fn search_uses_the_callers_ratio_answers() {
    let mut s = KonachanSearch::new(5);
    let posts = vec![
        post(1, 1920, 1080, Some("https://konachan.com/1.jpg")),
        post(2, 1000, 1000, Some("https://konachan.com/2.jpg")),
    ];
    s.receive_page(posts, &vec![true, false], &Resolution::Ratio(16, 9), &Vec::new());
    let found = s.finish().unwrap();
    assert_eq!(found.len(), 1);
    assert_eq!(found[0].id, "1");
}

#[test]
fn empty_page_ends_the_search() {
    let mut s = KonachanSearch::new(3);
    s.receive_page(Vec::new(), &Vec::new(), &Resolution::Exact(1, 1), &Vec::new());
    assert_eq!(s.next_page(), None);
    assert_eq!(s.finish(), Err(SearchError::NothingNewOnKonachan));
}

#[test]
fn search_stops_after_the_last_page() {
    let mut s = KonachanSearch::new(1000);
    let mut pages = 0;
    while let Some(_) = s.next_page() {
        let posts = vec![post(1, 10, 10, Some("https://konachan.com/1.jpg"))];
        s.receive_page(posts, &vec![false], &Resolution::Exact(1, 1), &Vec::new());
        pages += 1;
    }
    assert_eq!(pages, LAST_PAGE);
}

#[test]
fn converted_post_is_recorded_under_konachan() {
    let w = convert_post(post(1234, 10, 20, Some("https://konachan.com/image/x.webp"))).unwrap();
    assert_eq!(wally::history::source_from_wallpaper(&w), "konachan");
    assert_eq!(w.id, "1234");
    assert_eq!(w.file_type, detect_file_type(&w.path));
}
