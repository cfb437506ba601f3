use wally::locations::{
    load, locations_file_from, remove, save, text_for_remove, text_for_save, MAX_LOCATIONS,
};

#[test]
fn load_trims_and_skips_empty_lines() {
    assert_eq!(load("~/a\n  /b  \n\n\r\n/c\r\n"), vec!["~/a", "/b", "/c"]);
    assert!(load("").is_empty());
    assert!(load("\n \n").is_empty());
}

#[test]
fn save_puts_location_first_once() {
    let mut l = vec!["/a".to_string(), "/b".to_string(), "/c".to_string()];
    save(&mut l, "/b");
    assert_eq!(l, vec!["/b", "/a", "/c"]);
    save(&mut l, "/d");
    assert_eq!(l, vec!["/d", "/b", "/a", "/c"]);
}

#[test]
fn save_keeps_at_most_ten() {
    let mut l: Vec<String> = (0..10).map(|i| format!("/d{i}")).collect();
    save(&mut l, "/new");
    assert_eq!(l.len(), MAX_LOCATIONS);
    assert_eq!(l[0], "/new");
    assert_eq!(l[9], "/d8");
}

#[test]
fn remove_drops_location() {
    let mut l = vec!["/a".to_string(), "/b".to_string()];
    remove(&mut l, "/a");
    assert_eq!(l, vec!["/b"]);
    remove(&mut l, "/zzz");
    assert_eq!(l, vec!["/b"]);
}

#[test]
fn written_text_reads_back() {
    let l = vec!["/a".to_string(), "~/Pictures/Wallpapers".to_string()];
    let t = text_for_save(&l);
    assert_eq!(t, "/a\n~/Pictures/Wallpapers\n");
    assert_eq!(load(&t), l);
    assert_eq!(text_for_remove(&l), t);
    assert_eq!(text_for_remove(&Vec::new()), "");
    assert_eq!(text_for_save(&Vec::new()), "\n");
    assert!(load(&text_for_remove(&Vec::new())).is_empty());
}

#[test]
fn locations_file_lies_in_config_dir() {
    assert_eq!(
        locations_file_from(Some("/home/u/.config".to_string())),
        Some("/home/u/.config/wally/locations".to_string())
    );
    assert_eq!(locations_file_from(None), None);
}
