use wally::cli::{Rating, Resolution, Source, WallyConfig};
use wally::search::{clone_config_with_amount, combine_results, first_random, plan_both, random_config};
use wally::sources::{SearchError, Thumbnails, Wallpaper};

fn config(amount: u32) -> WallyConfig {
    WallyConfig {
        directory: "/tmp/walls".to_string(),
        source: Source::Both,
        rating: Rating::Sketchy,
        resolution: Resolution::Minimum(1920, 1080),
        tags: "sky".to_string(),
        amount,
    }
}

fn wallpaper(id: &str) -> Wallpaper {
    Wallpaper {
        id: id.to_string(),
        url: format!("https://wallhaven.cc/w/{id}"),
        purity: "sfw".to_string(),
        category: "general".to_string(),
        dimension_x: 1920,
        dimension_y: 1080,
        resolution: "1920x1080".to_string(),
        path: format!("https://w.wallhaven.cc/full/{id}.jpg"),
        file_type: "image/jpeg".to_string(),
        thumbs: Thumbnails { large: "l".to_string(), original: "o".to_string(), small: "s".to_string() },
    }
}

fn ids(ws: &[Wallpaper]) -> Vec<&str> {
    ws.iter().map(|w| w.id.as_str()).collect()
}

#[test]
fn cloned_config_keeps_choices_and_takes_amount() {
    let c = clone_config_with_amount(&config(10), 4);
    assert_eq!(c.directory, "/tmp/walls");
    assert_eq!(c.source, Source::Both);
    assert_eq!(c.rating, Rating::Sketchy);
    assert_eq!(c.resolution, Resolution::Minimum(1920, 1080));
    assert_eq!(c.tags, "sky");
    assert_eq!(c.amount, 4);
    assert_eq!(random_config(&config(10)).amount, 1);
}

#[test]
fn both_sources_share_the_request() {
    let p = plan_both(&config(10));
    assert_eq!(p.wallhaven.as_ref().unwrap().amount, 5);
    assert_eq!(p.konachan.as_ref().unwrap().amount, 5);
    let p = plan_both(&config(7));
    assert_eq!(p.wallhaven.as_ref().unwrap().amount, 3);
    assert_eq!(p.konachan.as_ref().unwrap().amount, 4);
}

#[test]
fn one_wallpaper_goes_to_wallhaven_alone() {
    let p = plan_both(&config(1));
    assert_eq!(p.wallhaven.as_ref().unwrap().amount, 1);
    assert!(p.konachan.is_none());
    let p = plan_both(&config(0));
    assert_eq!(p.wallhaven.as_ref().unwrap().amount, 1);
    assert!(p.konachan.is_none());
}

#[test]
fn results_are_joined_and_cut_to_the_request() {
    let r = combine_results(
        Some(vec![wallpaper("a"), wallpaper("b")]),
        Some(vec![wallpaper("c"), wallpaper("d")]),
        3,
    )
    .unwrap();
    assert_eq!(ids(&r), vec!["a", "b", "c"]);
    let r = combine_results(None, Some(vec![wallpaper("c")]), 3).unwrap();
    assert_eq!(ids(&r), vec!["c"]);
}

#[test]
fn no_results_from_either_source() {
    assert_eq!(combine_results(None, None, 4), Err(SearchError::NothingFromEitherSource));
    assert_eq!(
        combine_results(Some(Vec::new()), Some(Vec::new()), 4),
        Err(SearchError::NothingFromEitherSource)
    );
}

#[test]
fn random_takes_the_first_wallpaper() {
    assert_eq!(first_random(vec![wallpaper("x"), wallpaper("y")]).unwrap().id, "x");
    assert_eq!(first_random(Vec::new()), Err(SearchError::NoRandomWallpaper));
}

#[test]
fn error_messages() {
    assert_eq!(
        SearchError::NothingNewOnWallhaven.message(),
        "No new wallpapers found.\nAll matching wallpapers may already be in history."
    );
    assert_eq!(
        SearchError::NothingNewOnKonachan.message(),
        "No new wallpapers found on Konachan.\nAll matching wallpapers may already be in history."
    );
    assert_eq!(
        SearchError::NothingFromEitherSource.message(),
        "No new wallpapers found from either source."
    );
    assert_eq!(SearchError::NoRandomWallpaper.message(), "No new random wallpapers found.");
}
