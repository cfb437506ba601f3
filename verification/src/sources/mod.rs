//! What the wallpaper sources return, in one shape for both.
pub mod konachan;
pub mod wallhaven;

use vstd::prelude::*;

verus! {

/// One wallpaper as offered by a source.
#[derive(Debug, Clone, PartialEq)]
pub struct Wallpaper {
    pub id: String,
    pub url: String,
    pub purity: String,
    pub category: String,
    pub dimension_x: u32,
    pub dimension_y: u32,
    pub resolution: String,
    pub path: String,
    pub file_type: String,
    pub thumbs: Thumbnails,
}

/// Preview images of a wallpaper.
#[derive(Debug, Clone, PartialEq)]
pub struct Thumbnails {
    pub large: String,
    pub original: String,
    pub small: String,
}

/// The text of a wallpaper's preview addresses.
pub struct ThumbnailsView {
    pub large: Seq<char>,
    pub original: Seq<char>,
    pub small: Seq<char>,
}

/// The text of a wallpaper.
pub struct WallpaperView {
    pub id: Seq<char>,
    pub url: Seq<char>,
    pub purity: Seq<char>,
    pub category: Seq<char>,
    pub dimension_x: u32,
    pub dimension_y: u32,
    pub resolution: Seq<char>,
    pub path: Seq<char>,
    pub file_type: Seq<char>,
    pub thumbs: ThumbnailsView,
}

impl View for Thumbnails {
    type V = ThumbnailsView;

    open spec fn view(&self) -> ThumbnailsView {
        ThumbnailsView { large: self.large@, original: self.original@, small: self.small@ }
    }
}

impl View for Wallpaper {
    type V = WallpaperView;

    open spec fn view(&self) -> WallpaperView {
        WallpaperView {
            id: self.id@,
            url: self.url@,
            purity: self.purity@,
            category: self.category@,
            dimension_x: self.dimension_x,
            dimension_y: self.dimension_y,
            resolution: self.resolution@,
            path: self.path@,
            file_type: self.file_type@,
            thumbs: self.thumbs@,
        }
    }
}

/// The texts of a list of wallpapers, in order.
pub open spec fn wallpaper_views(ws: Seq<Wallpaper>) -> Seq<WallpaperView> {
    ws.map_values(|w: Wallpaper| w@)
}

/// Why a search gave nothing to show.
#[derive(Debug, Clone, Copy, PartialEq, Eq, Structural)]
pub enum SearchError {
    /// Wallhaven offered nothing that is not already downloaded.
    NothingNewOnWallhaven,
    /// Konachan offered nothing that is not already downloaded.
    NothingNewOnKonachan,
    /// Neither source offered anything.
    NothingFromEitherSource,
    /// The random search found nothing.
    NoRandomWallpaper,
}

impl SearchError {
    /// The message shown for this error.
    pub fn message(&self) -> (res: String)
        ensures
            res@ == search_error_message(*self),
    {
        match self {
            SearchError::NothingNewOnWallhaven => crate::text::owned(
                "No new wallpapers found.\nAll matching wallpapers may already be in history.",
            ),
            SearchError::NothingNewOnKonachan => crate::text::owned(
                "No new wallpapers found on Konachan.\nAll matching wallpapers may already be in history.",
            ),
            SearchError::NothingFromEitherSource => crate::text::owned(
                "No new wallpapers found from either source.",
            ),
            SearchError::NoRandomWallpaper => crate::text::owned("No new random wallpapers found."),
        }
    }
}

/// The message of a search error.
pub open spec fn search_error_message(e: SearchError) -> Seq<char> {
    match e {
        SearchError::NothingNewOnWallhaven => "No new wallpapers found.\nAll matching wallpapers may already be in history."@,
        SearchError::NothingNewOnKonachan => "No new wallpapers found on Konachan.\nAll matching wallpapers may already be in history."@,
        SearchError::NothingFromEitherSource => "No new wallpapers found from either source."@,
        SearchError::NoRandomWallpaper => "No new random wallpapers found."@,
    }
}

} // verus!
