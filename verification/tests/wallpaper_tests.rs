use wally::wallpaper::{
    backend_for, command_name, detect, detect_lowercase, file_uri, hyprland_next, hyprpaper_target,
    kde_script, probe_script, sway_next, Backend, Command, DesktopEnvironment, Probe, Tool,
};

#[test]
fn hyprland_is_checked_first() {
    assert_eq!(detect(true, Some("KDE".to_string()), true), DesktopEnvironment::Hyprland);
}

#[test]
fn desktop_name_is_compared_in_lower_case() {
    assert_eq!(detect(false, Some("KDE".to_string()), false), DesktopEnvironment::Kde);
    assert_eq!(detect(false, Some("ubuntu:GNOME".to_string()), false), DesktopEnvironment::Gnome);
    assert_eq!(detect(false, Some("XFCE".to_string()), false), DesktopEnvironment::Xfce);
    assert_eq!(detect(false, Some("XFCE".to_string()), true), DesktopEnvironment::Sway);
    assert_eq!(detect(false, Some("KDE".to_string()), true), DesktopEnvironment::Kde);
    assert_eq!(detect(false, None, true), DesktopEnvironment::Sway);
    assert_eq!(detect(false, None, false), DesktopEnvironment::Unknown);
    assert_eq!(detect(false, Some("LXQt".to_string()), false), DesktopEnvironment::Unknown);
}

#[test]
fn lower_case_names_are_matched_by_part() {
    assert_eq!(detect_lowercase(false, "plasma:kde", false), DesktopEnvironment::Kde);
    assert_eq!(detect_lowercase(false, "KDE", false), DesktopEnvironment::Unknown);
}

#[test]
fn names_of_environments() {
    assert_eq!(DesktopEnvironment::Hyprland.name(), "Hyprland");
    assert_eq!(DesktopEnvironment::Kde.name(), "KDE Plasma");
    assert_eq!(DesktopEnvironment::Gnome.name(), "GNOME");
    assert_eq!(DesktopEnvironment::Sway.name(), "Sway");
    assert_eq!(DesktopEnvironment::Xfce.name(), "XFCE");
    assert_eq!(DesktopEnvironment::Unknown.name(), "Unknown");
}

#[test]
fn xfce_and_unknown_are_left_to_the_user() {
    assert_eq!(backend_for(DesktopEnvironment::Hyprland), Backend::Hyprland);
    assert_eq!(backend_for(DesktopEnvironment::Kde), Backend::Kde);
    assert_eq!(backend_for(DesktopEnvironment::Gnome), Backend::Gnome);
    assert_eq!(backend_for(DesktopEnvironment::Sway), Backend::Sway);
    assert_eq!(backend_for(DesktopEnvironment::Xfce), Backend::Manual);
    assert_eq!(backend_for(DesktopEnvironment::Unknown), Backend::Manual);
}

#[test]
fn hyprland_tools_in_order() {
    assert_eq!(hyprland_next(&vec![]), Probe::Ask(Command::Noctalia));
    assert_eq!(hyprland_next(&vec![true]), Probe::Use(Tool::Noctalia));
    assert_eq!(hyprland_next(&vec![false]), Probe::Ask(Command::Swww));
    assert_eq!(hyprland_next(&vec![false, true]), Probe::Use(Tool::Swww));
    assert_eq!(hyprland_next(&vec![false, false]), Probe::Ask(Command::Hyprctl));
    assert_eq!(hyprland_next(&vec![false, false, false]), Probe::NoneFound);
    assert_eq!(hyprland_next(&vec![false, false, true]), Probe::Ask(Command::Hyprpaper));
    assert_eq!(hyprland_next(&vec![false, false, true, true]), Probe::Use(Tool::Hyprpaper));
    assert_eq!(hyprland_next(&vec![false, false, true, false]), Probe::NoneFound);
}

#[test]
fn sway_tools_in_order() {
    assert_eq!(sway_next(&vec![]), Probe::Ask(Command::Swww));
    assert_eq!(sway_next(&vec![true]), Probe::Use(Tool::Swww));
    assert_eq!(sway_next(&vec![false]), Probe::Ask(Command::Swaybg));
    assert_eq!(sway_next(&vec![false, true]), Probe::Use(Tool::Swaybg));
    assert_eq!(sway_next(&vec![false, false]), Probe::NoneFound);
}

#[test]
fn command_texts() {
    assert_eq!(command_name(Command::Noctalia), "noctalia");
    assert_eq!(command_name(Command::Swww), "swww");
    assert_eq!(command_name(Command::Hyprctl), "hyprctl");
    assert_eq!(command_name(Command::Hyprpaper), "hyprpaper");
    assert_eq!(command_name(Command::Swaybg), "swaybg");
    assert_eq!(probe_script("swww"), "command -v 'swww'");
    assert_eq!(file_uri("/w/a.png"), "file:///w/a.png");
    assert_eq!(hyprpaper_target("/w/a.png"), ",/w/a.png");
}

#[test]
fn plasma_script_names_the_file() {
    let s = kde_script("/w/a.png");
    assert!(s.contains("desktop.wallpaperPlugin = \"org.kde.image\";"));
    assert!(s.contains("desktop.writeConfig(\"Image\", \"file:///w/a.png\");"));
    assert!(s.starts_with("\n        for (const screen of workspace.screens) {"));
}
