use wally::cli::{
    chosen_directory, directory_options, parse_resolution, preset_resolution, rating_from_index,
    rating_options, resolution_options, source_from_index, source_options, validate_amount, Rating,
    Resolution, Source,
};

#[test]
fn labels_match_display() {
    assert_eq!(Source::Wallhaven.label(), "Wallhaven");
    assert_eq!(Source::Konachan.label(), "Konachan");
    assert_eq!(Source::Both.label(), "Both");
    assert_eq!(Rating::Sfw.label(), "SFW");
    assert_eq!(Rating::Sketchy.label(), "SFW + Sketchy");
    assert_eq!(Rating::Nsfw.label(), "NSFW");
    assert_eq!(Resolution::Exact(1920, 1080).label(), "1920x1080");
    assert_eq!(Resolution::Minimum(2560, 1440).label(), "Minimum 2560x1440");
    assert_eq!(Resolution::Ratio(16, 9).label(), "16:9");
}

#[test]
fn resolution_text_is_parsed_with_fallbacks() {
    assert_eq!(parse_resolution("2560x1440"), Resolution::Exact(2560, 1440));
    assert_eq!(parse_resolution("abcx1440"), Resolution::Exact(1920, 1440));
    assert_eq!(parse_resolution("2560x"), Resolution::Exact(2560, 1080));
    assert_eq!(parse_resolution("2560"), Resolution::Exact(1920, 1080));
    assert_eq!(parse_resolution("1x2x3"), Resolution::Exact(1920, 1080));
    assert_eq!(parse_resolution(" 800x600"), Resolution::Exact(1920, 600));
    assert_eq!(parse_resolution("+800x600"), Resolution::Exact(800, 600));
}

#[test]
fn menu_positions_map_to_choices() {
    assert_eq!(source_from_index(0), Source::Wallhaven);
    assert_eq!(source_from_index(1), Source::Konachan);
    assert_eq!(source_from_index(2), Source::Both);
    assert_eq!(rating_from_index(0), Rating::Sfw);
    assert_eq!(rating_from_index(1), Rating::Sketchy);
    assert_eq!(rating_from_index(7), Rating::Nsfw);
    assert_eq!(preset_resolution(0), Some(Resolution::Exact(1920, 1080)));
    assert_eq!(preset_resolution(2), Some(Resolution::Exact(3840, 2160)));
    assert_eq!(preset_resolution(3), Some(Resolution::Minimum(1920, 1080)));
    assert_eq!(preset_resolution(4), Some(Resolution::Ratio(16, 9)));
    assert_eq!(preset_resolution(5), None);
    assert_eq!(source_options(), vec!["Wallhaven", "Konachan", "Both"]);
    assert_eq!(rating_options(), vec!["SFW", "SFW + Sketchy", "NSFW"]);
    assert_eq!(resolution_options().len(), 6);
    assert_eq!(resolution_options()[5], "Custom");
}

#[test]
fn amount_must_be_positive() {
    assert_eq!(validate_amount(0), Err("Amount must be greater than 0".to_string()));
    assert_eq!(validate_amount(20), Ok(()));
}

#[test]
fn directory_menu_offers_new_location_last() {
    let saved = vec!["/a".to_string(), "/b".to_string()];
    assert_eq!(directory_options(&saved), vec!["/a", "/b", "+ New location"]);
    assert_eq!(chosen_directory(&saved, 1), Some("/b".to_string()));
    assert_eq!(chosen_directory(&saved, 2), None);
}

#[test]
fn exact_label_parses_back() {
    for (w, h) in [(2560, 1440), (0, 7), (u32::MAX, 1)] {
        let r = Resolution::Exact(w, h);
        assert_eq!(parse_resolution(&r.label()), r);
    }
}
