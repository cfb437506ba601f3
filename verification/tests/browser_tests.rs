use wally::browser::{random_footer_text, random_key_action, App, Key, KeyOutcome, RandomAction};
use wally::sources::{Thumbnails, Wallpaper};

fn wallpaper(id: &str) -> Wallpaper {
    Wallpaper {
        id: id.to_string(),
        url: format!("https://wallhaven.cc/w/{id}"),
        purity: "sfw".to_string(),
        category: "general".to_string(),
        dimension_x: 1920,
        dimension_y: 1080,
        resolution: "1920x1080".to_string(),
        path: format!("https://w.wallhaven.cc/full/{id}.png"),
        file_type: "image/png".to_string(),
        thumbs: Thumbnails { large: "l".to_string(), original: "o".to_string(), small: "s".to_string() },
    }
}

fn app(n: usize) -> App {
    let ids = ["a", "b", "c", "d"];
    App::new(ids[..n].iter().map(|id| wallpaper(id)).collect(), "/tmp/walls".to_string())
}

fn target_ids(app: &App) -> Vec<String> {
    app.download_targets().iter().map(|w| w.id.clone()).collect()
}

#[test]
fn new_browser_shows_the_first_wallpaper() {
    let a = app(3);
    assert_eq!(a.current(), 0);
    assert_eq!(a.len(), 3);
    assert_eq!(a.selected_count(), 0);
    assert_eq!(a.directory(), "/tmp/walls");
    assert_eq!(a.current_wallpaper().unwrap().id, "a");
}

#[test]
fn moving_wraps_around() {
    let mut a = app(3);
    a.previous();
    assert_eq!(a.current(), 2);
    a.next();
    assert_eq!(a.current(), 0);
    a.next();
    a.next();
    assert_eq!(a.current(), 2);
    a.next();
    assert_eq!(a.current(), 0);
}

#[test]
fn moving_in_an_empty_browser_stays_put() {
    let mut a = app(0);
    a.next();
    a.previous();
    assert_eq!(a.current(), 0);
    assert!(a.current_wallpaper().is_none());
    assert!(a.download_targets().is_empty());
    assert_eq!(a.header_text(), " WALLY  •  Wallhaven                         0 / 0 ");
    assert_eq!(a.footer_text(), "No wallpapers found.");
}

#[test]
fn toggling_twice_unselects() {
    let mut a = app(2);
    a.toggle_selected();
    assert_eq!(a.selected_count(), 1);
    a.toggle_selected();
    assert_eq!(a.selected_count(), 0);
}

#[test]
fn download_takes_the_selection_or_the_shown_one() {
    let mut a = app(4);
    a.next();
    assert_eq!(target_ids(&a), vec!["b"]);
    a.toggle_selected();
    a.next();
    a.next();
    a.toggle_selected();
    assert_eq!(a.selected_count(), 2);
    assert_eq!(target_ids(&a), vec!["b", "d"]);
}

#[test]
fn keys_move_select_and_act() {
    let mut a = app(3);
    assert_eq!(a.handle_key(Key::Right), KeyOutcome::Redraw);
    assert_eq!(a.current(), 1);
    assert_eq!(a.handle_key(Key::Left), KeyOutcome::Redraw);
    assert_eq!(a.current(), 0);
    assert_eq!(a.handle_key(Key::Char('a')), KeyOutcome::Redraw);
    assert_eq!(a.current(), 2);
    assert_eq!(a.handle_key(Key::Char(' ')), KeyOutcome::Redraw);
    assert_eq!(a.selected_count(), 1);
    assert_eq!(a.handle_key(Key::Enter), KeyOutcome::DownloadSelected);
    assert_eq!(a.handle_key(Key::Char('d')), KeyOutcome::DownloadCurrent);
    assert_eq!(a.handle_key(Key::Char('D')), KeyOutcome::DownloadCurrent);
    assert_eq!(a.handle_key(Key::Char('s')), KeyOutcome::SetWallpaper);
    assert_eq!(a.handle_key(Key::Char('S')), KeyOutcome::SetWallpaper);
    assert_eq!(a.handle_key(Key::Char('q')), KeyOutcome::Quit);
    assert_eq!(a.handle_key(Key::Char('Q')), KeyOutcome::Quit);
    assert_eq!(a.handle_key(Key::Esc), KeyOutcome::Quit);
    assert_eq!(a.handle_key(Key::Char('x')), KeyOutcome::Redraw);
    assert_eq!(a.handle_key(Key::Other), KeyOutcome::Redraw);
    assert_eq!(a.current(), 2);
    assert_eq!(a.selected_count(), 1);
}

#[test]
fn header_and_footer_text() {
    let mut a = app(3);
    a.next();
    a.toggle_selected();
    assert_eq!(a.header_text(), " WALLY  •  Wallhaven                         2 / 3 ");
    assert_eq!(
        a.footer_text(),
        " ID: b    1920 × 1080    image/png\nStatus: ✓ SELECTED    Selected: 1\n\n← → Navigate    SPACE Select    ENTER Download    D Download current    S Set wallpaper    Q Quit"
    );
    a.next();
    assert_eq!(
        a.footer_text(),
        " ID: c    1920 × 1080    image/png\nStatus: Not selected    Selected: 1\n\n← → Navigate    SPACE Select    ENTER Download    D Download current    S Set wallpaper    Q Quit"
    );
}

#[test]
fn random_view_keys() {
    assert_eq!(random_key_action(Key::Char('n')), RandomAction::NextRandom);
    assert_eq!(random_key_action(Key::Char('N')), RandomAction::NextRandom);
    assert_eq!(random_key_action(Key::Right), RandomAction::NextRandom);
    assert_eq!(random_key_action(Key::Enter), RandomAction::Download);
    assert_eq!(random_key_action(Key::Char('d')), RandomAction::Download);
    assert_eq!(random_key_action(Key::Char('s')), RandomAction::SetWallpaper);
    assert_eq!(random_key_action(Key::Esc), RandomAction::Quit);
    assert_eq!(random_key_action(Key::Char('q')), RandomAction::Quit);
    assert_eq!(random_key_action(Key::Left), RandomAction::Ignore);
}

#[test]
fn random_view_footer() {
    assert_eq!(random_footer_text(None), "No wallpaper found.");
    assert_eq!(
        random_footer_text(Some(&wallpaper("z"))),
        " ID: z    1920 × 1080    image/png\n\nN / → Next random    ENTER Download    D Download    S Set wallpaper    Q Quit"
    );
}
