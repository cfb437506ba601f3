use wally::history::{
    add, add_if_missing, remove_if_present, clear, contains, entry_lines, history_path_in, load, matching_entries, remove,
    source_from_wallpaper, HistoryEntry,
};
use wally::sources::{Thumbnails, Wallpaper};

fn wallpaper(id: &str, url: &str) -> Wallpaper {
    Wallpaper {
        id: id.to_string(),
        url: url.to_string(),
        purity: "sfw".to_string(),
        category: "general".to_string(),
        dimension_x: 1920,
        dimension_y: 1080,
        resolution: "1920x1080".to_string(),
        path: format!("https://w.wallhaven.cc/full/{id}.jpg"),
        file_type: "image/jpeg".to_string(),
        thumbs: Thumbnails {
            large: "l".to_string(),
            original: "o".to_string(),
            small: "s".to_string(),
        },
    }
}

fn entry(id: &str, source: &str, url: &str) -> HistoryEntry {
    HistoryEntry {
        id: id.to_string(),
        source: source.to_string(),
        url: url.to_string(),
        path: "/p".to_string(),
        width: 1,
        height: 2,
        file_type: "image/png".to_string(),
    }
}

#[test]
fn source_is_taken_from_the_address() {
    assert_eq!(source_from_wallpaper(&wallpaper("1", "https://wallhaven.cc/w/1")), "wallhaven");
    assert_eq!(source_from_wallpaper(&wallpaper("1", "https://konachan.com/post/show/1")), "konachan");
    assert_eq!(source_from_wallpaper(&wallpaper("1", "https://konachan.net/post/show/1")), "konachan");
    assert_eq!(source_from_wallpaper(&wallpaper("1", "https://example.org/1")), "unknown");
}

#[test]
fn added_wallpaper_is_contained_and_first() {
    let mut h = vec![entry("a", "wallhaven", "https://wallhaven.cc/w/a")];
    let w = wallpaper("b", "https://wallhaven.cc/w/b");
    assert!(!contains(&h, &w));
    add(&mut h, &w, "/walls/b_1920.jpg");
    assert!(contains(&h, &w));
    assert_eq!(h.len(), 2);
    assert_eq!(h[0].id, "b");
    assert_eq!(h[0].source, "wallhaven");
    assert_eq!(h[0].path, "/walls/b_1920.jpg");
    assert_eq!(h[0].width, 1920);
    assert_eq!(h[0].height, 1080);
    assert_eq!(h[0].file_type, "image/jpeg");
    assert_eq!(h[1].id, "a");
}

#[test]
fn adding_twice_keeps_one_entry() {
    let mut h = Vec::new();
    let w = wallpaper("x", "https://wallhaven.cc/w/x");
    add(&mut h, &w, "/one");
    let once = h.clone();
    add(&mut h, &w, "/one");
    assert_eq!(h, once);
    add(&mut h, &w, "/two");
    assert_eq!(h.len(), 1);
    assert_eq!(h[0].path, "/two");
}

#[test]
fn same_id_from_two_sources_coexists() {
    let mut h = Vec::new();
    add(&mut h, &wallpaper("123", "https://wallhaven.cc/w/123"), "/a");
    add(&mut h, &wallpaper("123", "https://konachan.com/post/show/123"), "/b");
    assert_eq!(h.len(), 2);
    assert_eq!(h[0].source, "konachan");
    assert_eq!(h[1].source, "wallhaven");
    assert!(contains(&h, &wallpaper("123", "https://wallhaven.cc/w/123")));
    assert_eq!(matching_entries(&h, "123").len(), 2);
}

#[test]
fn remove_drops_every_source_of_an_id() {
    let mut h = vec![
        entry("1", "wallhaven", "u"),
        entry("2", "konachan", "u"),
        entry("1", "konachan", "u"),
    ];
    remove(&mut h, "1");
    assert_eq!(h.len(), 1);
    assert_eq!(h[0].id, "2");
    remove(&mut h, "missing");
    assert_eq!(h.len(), 1);
}

#[test]
fn clear_empties_history() {
    let mut h = vec![entry("1", "wallhaven", "u")];
    clear(&mut h);
    assert!(h.is_empty());
    assert!(!contains(&h, &wallpaper("1", "https://wallhaven.cc/w/1")));
}

#[test]
fn load_names_missing_sources() {
    assert!(load(None).is_empty());
    let loaded = load(Some(vec![
        entry("1", "", "https://wallhaven.cc/w/1"),
        entry("2", "", "https://konachan.net/post/show/2"),
        entry("3", "", "https://other"),
        entry("4", "konachan", "https://wallhaven.cc/w/4"),
    ]));
    let sources: Vec<&str> = loaded.iter().map(|e| e.source.as_str()).collect();
    assert_eq!(sources, vec!["wallhaven", "konachan", "unknown", "konachan"]);
}

#[test]
fn history_file_lies_in_data_dir() {
    assert_eq!(
        history_path_in(Some("/home/u/.local/share".to_string())),
        Some("/home/u/.local/share/wally/history.json".to_string())
    );
    assert_eq!(history_path_in(Some("/data/".to_string())), Some("/data/wally/history.json".to_string()));
    assert_eq!(history_path_in(None), None);
}

#[test]
fn entry_lines_are_formatted() {
    let e = HistoryEntry {
        id: "abc".to_string(),
        source: "wallhaven".to_string(),
        url: "u".to_string(),
        path: "/w/abc.jpg".to_string(),
        width: 1920,
        height: 1080,
        file_type: "image/jpeg".to_string(),
    };
    let lines = entry_lines(1, &e);
    assert_eq!(lines[0], format!("{:>3}. {}:{}", 1, "wallhaven", "abc"));
    assert_eq!(lines[1], "     1920x1080 • image/jpeg");
    assert_eq!(lines[2], "     /w/abc.jpg");
    assert_eq!(entry_lines(1234, &e)[0], "1234. wallhaven:abc");
}

#[test]
fn existing_download_is_recorded_once() {
    let mut h = vec![entry("a", "wallhaven", "https://wallhaven.cc/w/a"), entry("b", "wallhaven", "https://wallhaven.cc/w/b")];
    let b = wallpaper("b", "https://wallhaven.cc/w/b");
    assert!(!add_if_missing(&mut h, &b, "/walls/b.jpg"));
    assert_eq!(h.len(), 2);
    assert_eq!(h[0].id, "a");
    assert_eq!(h[1].path, "/p");
    let c = wallpaper("c", "https://konachan.com/post/show/c");
    assert!(add_if_missing(&mut h, &c, "/walls/c.jpg"));
    assert_eq!(h.len(), 3);
    assert_eq!(h[0].id, "c");
    assert_eq!(h[0].source, "konachan");
    assert_eq!(h[0].path, "/walls/c.jpg");
}

#[test]
fn remove_if_present_reports_and_drops() {
    let mut h = vec![
        entry("a", "wallhaven", "https://wallhaven.cc/w/a"),
        entry("x", "konachan", "https://konachan.com/post/show/x"),
        entry("x", "wallhaven", "https://wallhaven.cc/w/x"),
    ];
    assert!(!remove_if_present(&mut h, "zz"));
    assert_eq!(h.len(), 3);
    assert!(remove_if_present(&mut h, "x"));
    assert_eq!(h.len(), 1);
    assert_eq!(h[0].id, "a");
}
