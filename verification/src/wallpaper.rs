//! Setting the desktop background: which desktop environment runs, which
//! tool sets the background there, and the arguments handed to it.
use vstd::prelude::*;
use crate::text::{has_infix, contains_str, owned, push_str};

verus! {

/// The desktop environments told apart.
#[derive(Debug, Clone, Copy, PartialEq, Eq, Structural)]
pub enum DesktopEnvironment {
    Hyprland,
    Kde,
    Gnome,
    Sway,
    Xfce,
    Unknown,
}

/// The name shown for a desktop environment.
pub open spec fn environment_name(e: DesktopEnvironment) -> Seq<char> {
    match e {
        DesktopEnvironment::Hyprland => "Hyprland"@,
        DesktopEnvironment::Kde => "KDE Plasma"@,
        DesktopEnvironment::Gnome => "GNOME"@,
        DesktopEnvironment::Sway => "Sway"@,
        DesktopEnvironment::Xfce => "XFCE"@,
        DesktopEnvironment::Unknown => "Unknown"@,
    }
}

impl DesktopEnvironment {
    /// The name shown for this desktop environment.
    pub fn name(&self) -> (res: String)
        ensures
            res@ == environment_name(*self),
    {
        match self {
            DesktopEnvironment::Hyprland => owned("Hyprland"),
            DesktopEnvironment::Kde => owned("KDE Plasma"),
            DesktopEnvironment::Gnome => owned("GNOME"),
            DesktopEnvironment::Sway => owned("Sway"),
            DesktopEnvironment::Xfce => owned("XFCE"),
            DesktopEnvironment::Unknown => owned("Unknown"),
        }
    }
}

/// What `str::to_lowercase` returns for a text: its characters mapped by
/// Unicode's lowercase mapping.
pub uninterp spec fn lowercase(s: Seq<char>) -> Seq<char>;

/// `s` in lower case, by calling `str::to_lowercase`. Its contract is
/// believed, not proved, and only names the result (`lowercase` of the
/// text): the Unicode case tables are not written out here.
#[verifier::external_body]
fn to_lowercase(s: &str) -> (res: String)
    ensures
        res@ == lowercase(s@),
{
    s.to_lowercase()
}

/// The desktop environment, given whether Hyprland's instance signature
/// is set, the current desktop's name in lower case (empty when unset),
/// and whether Sway's socket is set. Hyprland is checked first, then KDE
/// and GNOME by name, then Sway, then XFCE by name.
pub open spec fn environment_of(hyprland: bool, desktop: Seq<char>, sway: bool) -> DesktopEnvironment {
    if hyprland {
        DesktopEnvironment::Hyprland
    } else if has_infix(desktop, "kde"@) {
        DesktopEnvironment::Kde
    } else if has_infix(desktop, "gnome"@) {
        DesktopEnvironment::Gnome
    } else if sway {
        DesktopEnvironment::Sway
    } else if has_infix(desktop, "xfce"@) {
        DesktopEnvironment::Xfce
    } else {
        DesktopEnvironment::Unknown
    }
}

/// The desktop environment from the lower-cased name of the current
/// desktop.
pub fn detect_lowercase(hyprland: bool, desktop: &str, sway: bool) -> (res: DesktopEnvironment)
    ensures
        res == environment_of(hyprland, desktop@, sway),
{
    if hyprland {
        return DesktopEnvironment::Hyprland;
    }
    if contains_str(desktop, "kde") {
        return DesktopEnvironment::Kde;
    }
    if contains_str(desktop, "gnome") {
        return DesktopEnvironment::Gnome;
    }
    if sway {
        return DesktopEnvironment::Sway;
    }
    if contains_str(desktop, "xfce") {
        return DesktopEnvironment::Xfce;
    }
    DesktopEnvironment::Unknown
}

/// The desktop environment, given whether `HYPRLAND_INSTANCE_SIGNATURE`
/// is set, the value of `XDG_CURRENT_DESKTOP` (`None` when unset or not
/// Unicode) and whether `SWAYSOCK` is set.
pub fn detect(
    hyprland_signature_set: bool,
    current_desktop: Option<String>,
    sway_socket_set: bool,
) -> (res: DesktopEnvironment)
    ensures
        res == environment_of(
            hyprland_signature_set,
            lowercase(
                match current_desktop {
                    Some(d) => d@,
                    None => Seq::empty(),
                },
            ),
            sway_socket_set,
        ),
{
    let desktop = match current_desktop {
        Some(d) => d,
        None => String::new(),
    };
    let lower = to_lowercase(desktop.as_str());
    detect_lowercase(hyprland_signature_set, lower.as_str(), sway_socket_set)
}

/// How the background is set in a desktop environment.
#[derive(Debug, Clone, Copy, PartialEq, Eq, Structural)]
pub enum Backend {
    /// One of Hyprland's wallpaper tools.
    Hyprland,
    /// Plasma's scripting interface.
    Kde,
    /// GNOME's settings.
    Gnome,
    /// One of Sway's wallpaper tools.
    Sway,
    /// None: the user is told where the file is.
    Manual,
}

/// The way the background is set in each environment; XFCE and unknown
/// ones are left to the user.
pub open spec fn backend_of(e: DesktopEnvironment) -> Backend {
    match e {
        DesktopEnvironment::Hyprland => Backend::Hyprland,
        DesktopEnvironment::Kde => Backend::Kde,
        DesktopEnvironment::Gnome => Backend::Gnome,
        DesktopEnvironment::Sway => Backend::Sway,
        DesktopEnvironment::Xfce => Backend::Manual,
        DesktopEnvironment::Unknown => Backend::Manual,
    }
}

/// The way the background is set in `environment`.
pub fn backend_for(environment: DesktopEnvironment) -> (res: Backend)
    ensures
        res == backend_of(environment),
{
    match environment {
        DesktopEnvironment::Hyprland => Backend::Hyprland,
        DesktopEnvironment::Kde => Backend::Kde,
        DesktopEnvironment::Gnome => Backend::Gnome,
        DesktopEnvironment::Sway => Backend::Sway,
        DesktopEnvironment::Xfce => Backend::Manual,
        DesktopEnvironment::Unknown => Backend::Manual,
    }
}

/// A tool that sets the background.
#[derive(Debug, Clone, Copy, PartialEq, Eq, Structural)]
pub enum Tool {
    Noctalia,
    Swww,
    Hyprpaper,
    Swaybg,
}

/// A command whose presence is asked for.
#[derive(Debug, Clone, Copy, PartialEq, Eq, Structural)]
pub enum Command {
    Noctalia,
    Swww,
    Hyprctl,
    Hyprpaper,
    Swaybg,
}

/// The next step of looking for a tool.
#[derive(Debug, Clone, Copy, PartialEq, Eq, Structural)]
pub enum Probe {
    /// Ask whether this command exists.
    Ask(Command),
    /// Use this tool.
    Use(Tool),
    /// No supported tool is installed.
    NoneFound,
}

/// The name of a command.
pub open spec fn command_text(c: Command) -> Seq<char> {
    match c {
        Command::Noctalia => "noctalia"@,
        Command::Swww => "swww"@,
        Command::Hyprctl => "hyprctl"@,
        Command::Hyprpaper => "hyprpaper"@,
        Command::Swaybg => "swaybg"@,
    }
}

/// The name of a command.
pub fn command_name(command: Command) -> (res: String)
    ensures
        res@ == command_text(command),
{
    match command {
        Command::Noctalia => owned("noctalia"),
        Command::Swww => owned("swww"),
        Command::Hyprctl => owned("hyprctl"),
        Command::Hyprpaper => owned("hyprpaper"),
        Command::Swaybg => owned("swaybg"),
    }
}

/// On Hyprland, given the answers so far (in asking order: `noctalia`,
/// `swww`, `hyprctl`, `hyprpaper`): Noctalia if present, else swww, else
/// hyprpaper when both `hyprctl` and `hyprpaper` are present.
pub open spec fn hyprland_probe(found: Seq<bool>) -> Probe {
    if found.len() == 0 {
        Probe::Ask(Command::Noctalia)
    } else if found[0] {
        Probe::Use(Tool::Noctalia)
    } else if found.len() == 1 {
        Probe::Ask(Command::Swww)
    } else if found[1] {
        Probe::Use(Tool::Swww)
    } else if found.len() == 2 {
        Probe::Ask(Command::Hyprctl)
    } else if !found[2] {
        Probe::NoneFound
    } else if found.len() == 3 {
        Probe::Ask(Command::Hyprpaper)
    } else if found[3] {
        Probe::Use(Tool::Hyprpaper)
    } else {
        Probe::NoneFound
    }
}

/// On Sway, given the answers so far (in asking order: `swww`,
/// `swaybg`): swww if present, else swaybg.
pub open spec fn sway_probe(found: Seq<bool>) -> Probe {
    if found.len() == 0 {
        Probe::Ask(Command::Swww)
    } else if found[0] {
        Probe::Use(Tool::Swww)
    } else if found.len() == 1 {
        Probe::Ask(Command::Swaybg)
    } else if found[1] {
        Probe::Use(Tool::Swaybg)
    } else {
        Probe::NoneFound
    }
}

/// The next step of looking for a tool on Hyprland.
pub fn hyprland_next(found: &Vec<bool>) -> (res: Probe)
    ensures
        res == hyprland_probe(found@),
{
    if found.len() == 0 {
        Probe::Ask(Command::Noctalia)
    } else if found[0] {
        Probe::Use(Tool::Noctalia)
    } else if found.len() == 1 {
        Probe::Ask(Command::Swww)
    } else if found[1] {
        Probe::Use(Tool::Swww)
    } else if found.len() == 2 {
        Probe::Ask(Command::Hyprctl)
    } else if !found[2] {
        Probe::NoneFound
    } else if found.len() == 3 {
        Probe::Ask(Command::Hyprpaper)
    } else if found[3] {
        Probe::Use(Tool::Hyprpaper)
    } else {
        Probe::NoneFound
    }
}

/// The next step of looking for a tool on Sway.
pub fn sway_next(found: &Vec<bool>) -> (res: Probe)
    ensures
        res == sway_probe(found@),
{
    if found.len() == 0 {
        Probe::Ask(Command::Swww)
    } else if found[0] {
        Probe::Use(Tool::Swww)
    } else if found.len() == 1 {
        Probe::Ask(Command::Swaybg)
    } else if found[1] {
        Probe::Use(Tool::Swaybg)
    } else {
        Probe::NoneFound
    }
}

/// The shell line that tells whether `command` exists.
pub fn probe_script(command: &str) -> (res: String)
    ensures
        res@ == "command -v '"@ + command@ + "'"@,
{
    let mut s = owned("command -v '");
    push_str(&mut s, command);
    push_str(&mut s, "'");
    s
}

/// The `file://` address of a local file.
pub fn file_uri(path: &str) -> (res: String)
    ensures
        res@ == "file://"@ + path@,
{
    let mut s = owned("file://");
    push_str(&mut s, path);
    s
}

/// The start of the Plasma script, up to the image's path.
pub open spec fn kde_script_head() -> Seq<char> {
    "\n        for (const screen of workspace.screens) {\n            const desktops = workspace.desktopsForScreen(screen);\n\n            for (const desktop of desktops) {\n                desktop.wallpaperPlugin = \"org.kde.image\";\n\n                desktop.currentConfigGroup = [\"Wallpaper\", \"org.kde.image\", \"General\"];\n                desktop.writeConfig(\"Image\", \"file://"@
}

/// The end of the Plasma script, after the image's path.
pub open spec fn kde_script_tail() -> Seq<char> {
    "\");\n            }\n        }\n        "@
}

/// The Plasma script that sets `path` as the image of every desktop of
/// every screen.
pub fn kde_script(path: &str) -> (res: String)
    ensures
        res@ == kde_script_head() + path@ + kde_script_tail(),
{
    let mut s = owned("\n        for (const screen of workspace.screens) {\n            const desktops = workspace.desktopsForScreen(screen);\n\n            for (const desktop of desktops) {\n                desktop.wallpaperPlugin = \"org.kde.image\";\n\n                desktop.currentConfigGroup = [\"Wallpaper\", \"org.kde.image\", \"General\"];\n                desktop.writeConfig(\"Image\", \"file://");
    push_str(&mut s, path);
    push_str(&mut s, "\");\n            }\n        }\n        ");
    s
}

/// The argument that tells hyprpaper to show `path` on every monitor.
pub fn hyprpaper_target(path: &str) -> (res: String)
    ensures
        res@ == ","@ + path@,
{
    let mut s = owned(",");
    push_str(&mut s, path);
    s
}

// ───────────────────────── laws ─────────────────────────

/// Looking for a tool on Hyprland asks at most four questions and ends
/// with a tool or with none.
pub proof fn law_hyprland_probe_ends(found: Seq<bool>)
    requires
        found.len() >= 4,
    ensures
        !(hyprland_probe(found) is Ask),
{
}

/// Looking for a tool on Sway asks at most two questions and ends with a
/// tool or with none.
pub proof fn law_sway_probe_ends(found: Seq<bool>)
    requires
        found.len() >= 2,
    ensures
        !(sway_probe(found) is Ask),
{
}

} // verus!
