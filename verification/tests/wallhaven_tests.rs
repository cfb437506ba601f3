use wally::cli::{Rating, Resolution, Source, WallyConfig};
use wally::history::HistoryEntry;
use wally::sources::wallhaven::{
    convert_wallpaper, page_action, query_params, retry_delay, Meta, PageAction, PageFailure,
    PageOutcome, WallhavenApiResponse, WallhavenSearch, WallhavenWallpaper, MAX_RETRIES,
};
use wally::sources::{SearchError, Thumbnails};

fn config(tags: &str, rating: Rating, resolution: Resolution) -> WallyConfig {
    WallyConfig {
        directory: "/tmp/walls".to_string(),
        source: Source::Wallhaven,
        rating,
        resolution,
        tags: tags.to_string(),
        amount: 2,
    }
}

fn pairs(items: &[(&str, &str)]) -> Vec<(String, String)> {
    items.iter().map(|(a, b)| (a.to_string(), b.to_string())).collect()
}

fn api_wallpaper(id: &str) -> WallhavenWallpaper {
    WallhavenWallpaper {
        id: id.to_string(),
        url: format!("https://wallhaven.cc/w/{id}"),
        purity: "sfw".to_string(),
        category: "general".to_string(),
        dimension_x: 1920,
        dimension_y: 1080,
        resolution: "1920x1080".to_string(),
        path: format!("https://w.wallhaven.cc/full/{id}.png"),
        file_type: "image/png".to_string(),
        thumbs: Thumbnails {
            large: "l".to_string(),
            original: "o".to_string(),
            small: "s".to_string(),
        },
    }
}

fn page(ids: &[&str], current: u32, last: u32) -> WallhavenApiResponse {
    WallhavenApiResponse {
        data: ids.iter().map(|id| api_wallpaper(id)).collect(),
        meta: Meta { current_page: current, last_page: last, total: ids.len() as u32 },
    }
}

fn history_entry(id: &str) -> HistoryEntry {
    HistoryEntry {
        id: id.to_string(),
        source: "wallhaven".to_string(),
        url: format!("https://wallhaven.cc/w/{id}"),
        path: "/tmp/walls/x.png".to_string(),
        width: 1920,
        height: 1080,
        file_type: "image/png".to_string(),
    }
}

#[test]
fn query_with_tags_and_key() {
    let c = config(" nature , ,city lights ", Rating::Sketchy, Resolution::Minimum(1920, 1080));
    assert_eq!(
        query_params(&c, 3, Some("KEY".to_string())),
        pairs(&[
            ("q", "nature+city lights"),
            ("purity", "110"),
            ("categories", "111"),
            ("atleast", "1920x1080"),
            ("sorting", "random"),
            ("page", "3"),
            ("apikey", "KEY"),
        ])
    );
}

#[test]
fn query_without_tags_or_key() {
    let c = config("  ", Rating::Sfw, Resolution::Exact(2560, 1440));
    assert_eq!(
        query_params(&c, 1, None),
        pairs(&[
            ("purity", "100"),
            ("categories", "111"),
            ("resolutions", "2560x1440"),
            ("sorting", "random"),
            ("page", "1"),
        ])
    );
    let c = config("", Rating::Nsfw, Resolution::Ratio(21, 9));
    let q = query_params(&c, 12, None);
    assert_eq!(q[0], ("purity".to_string(), "111".to_string()));
    assert_eq!(q[2], ("ratios".to_string(), "21x9".to_string()));
    assert_eq!(q[4], ("page".to_string(), "12".to_string()));
}

#[test]
fn delays_double_up_to_eight_seconds() {
    assert_eq!(retry_delay(1), 1);
    assert_eq!(retry_delay(2), 2);
    assert_eq!(retry_delay(3), 4);
    assert_eq!(retry_delay(4), 8);
    assert_eq!(retry_delay(5), 8);
    assert_eq!(retry_delay(20), 8);
}

#[test]
fn failed_connections_are_retried_until_the_limit() {
    assert_eq!(page_action(1, PageOutcome::ConnectionFailed), PageAction::Retry(1));
    assert_eq!(page_action(4, PageOutcome::ConnectionFailed), PageAction::Retry(8));
    assert_eq!(
        page_action(MAX_RETRIES, PageOutcome::ConnectionFailed),
        PageAction::Fail(PageFailure::Connection)
    );
}

#[test]
fn unavailable_server_is_retried_until_the_limit() {
    assert_eq!(page_action(2, PageOutcome::Responded(503)), PageAction::Retry(2));
    assert_eq!(page_action(3, PageOutcome::Responded(502)), PageAction::Retry(4));
    assert_eq!(
        page_action(5, PageOutcome::Responded(504)),
        PageAction::Fail(PageFailure::Unavailable(504))
    );
}

#[test]
fn other_statuses_fail_or_are_read() {
    assert_eq!(page_action(1, PageOutcome::Responded(429)), PageAction::Fail(PageFailure::Status(429)));
    assert_eq!(page_action(1, PageOutcome::Responded(500)), PageAction::Fail(PageFailure::Status(500)));
    assert_eq!(page_action(1, PageOutcome::Responded(200)), PageAction::Read);
    assert_eq!(page_action(5, PageOutcome::Responded(204)), PageAction::Read);
}

#[test]
fn api_wallpaper_keeps_its_fields() {
    let w = convert_wallpaper(api_wallpaper("abc"));
    assert_eq!(w.id, "abc");
    assert_eq!(w.url, "https://wallhaven.cc/w/abc");
    assert_eq!(w.path, "https://w.wallhaven.cc/full/abc.png");
    assert_eq!(w.file_type, "image/png");
    assert_eq!(w.thumbs.small, "s");
}

#[test]
fn search_walks_pages_and_skips_history() {
    let mut s = WallhavenSearch::new(3);
    assert_eq!(s.next_page(), Some(1));
    s.receive_page(page(&["a", "b"], 1, 3), &vec![history_entry("a")]);
    assert_eq!(s.skipped(), 1);
    assert_eq!(s.next_page(), Some(2));
    s.receive_page(page(&["c", "d", "e"], 2, 3), &vec![history_entry("a")]);
    assert_eq!(s.next_page(), None);
    let r = s.finish().unwrap();
    let ids: Vec<&str> = r.data.iter().map(|w| w.id.as_str()).collect();
    assert_eq!(ids, vec!["b", "c", "d"]);
    assert_eq!(r.meta, Meta { current_page: 3, last_page: 3, total: 3 });
}

#[test]
fn search_ends_on_the_last_page() {
    let mut s = WallhavenSearch::new(10);
    s.receive_page(page(&["a"], 1, 1), &Vec::new());
    assert_eq!(s.next_page(), None);
    let r = s.finish().unwrap();
    assert_eq!(r.data.len(), 1);
    assert_eq!(r.meta, Meta { current_page: 1, last_page: 1, total: 1 });
}

#[test]
fn search_with_only_known_wallpapers_finds_nothing() {
    let mut s = WallhavenSearch::new(2);
    s.receive_page(page(&["a"], 1, 1), &vec![history_entry("a")]);
    assert_eq!(s.finish(), Err(SearchError::NothingNewOnWallhaven));
}
