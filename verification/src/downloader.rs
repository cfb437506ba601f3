//! Where a downloaded wallpaper is stored: the directory with `~`
//! expanded, the file name, and the temporary name used while writing.
use vstd::prelude::*;
use crate::paths::{home_dir, join_path, path_join};
use crate::sources::{Wallpaper, WallpaperView};
use crate::text::{
    chars_of, decimal, opt_view, owned, push_char, push_decimal, push_str, slice_chars, starts_with,
    starts_with_chars, string_of,
};

verus! {

/// The file extension for a media type; JPEG for any other type.
pub open spec fn extension_of(file_type: Seq<char>) -> Seq<char> {
    if file_type == "image/png"@ {
        "png"@
    } else if file_type == "image/webp"@ {
        "webp"@
    } else if file_type == "image/gif"@ {
        "gif"@
    } else {
        "jpg"@
    }
}

/// The file extension of a wallpaper, from its media type.
pub fn extension_from_wallpaper(wallpaper: &Wallpaper) -> (res: String)
    ensures
        res@ == extension_of(wallpaper.file_type@),
{
    let t = &wallpaper.file_type;
    if *t == owned("image/png") {
        owned("png")
    } else if *t == owned("image/webp") {
        owned("webp")
    } else if *t == owned("image/gif") {
        owned("gif")
    } else {
        owned("jpg")
    }
}

/// `path` with a leading `~` standing for the home directory `home`:
/// `~` alone is the home directory (the current directory when there is
/// none), `~/rest` is `rest` inside it; anything else is kept.
pub open spec fn expanded_home(path: Seq<char>, home: Option<Seq<char>>) -> Seq<char> {
    if path == "~"@ {
        match home {
            Some(h) => h,
            None => "."@,
        }
    } else if starts_with(path, "~/"@) && home is Some {
        path_join(home->0, path.skip(2))
    } else {
        path
    }
}

/// `path` with a leading `~` replaced by `home`.
pub fn expand_home_with(path: &str, home: Option<String>) -> (res: String)
    ensures
        res@ == expanded_home(path@, opt_view(home)),
{
    let cs = chars_of(path);
    proof {
        reveal_strlit("~");
        reveal_strlit("~/");
    }
    if cs.len() == 1 && cs[0] == '~' {
        assert(path@ =~= "~"@);
        return match home {
            Some(h) => h,
            None => owned("."),
        };
    }
    assert(path@ != "~"@);
    let prefix = chars_of("~/");
    if starts_with_chars(&cs, &prefix) {
        match home {
            Some(h) => {
                let rest = slice_chars(&cs, 2, cs.len());
                assert(rest@ =~= path@.skip(2));
                let r = string_of(&rest);
                return join_path(h.as_str(), r.as_str());
            },
            None => {},
        }
    }
    owned(path)
}

/// `path` with a leading `~` replaced by the user's home directory.
pub fn expand_home(path: &str) -> (res: String)
    ensures
        exists|home: Option<Seq<char>>| res@ == expanded_home(path@, home),
{
    let home = home_dir();
    let ghost h = opt_view(home);
    let res = expand_home_with(path, home);
    assert(res@ == expanded_home(path@, h));
    res
}

/// The file name of a downloaded wallpaper: its id, its width and its
/// extension, as `ID_WIDTH.EXT`.
pub open spec fn file_name_of(w: WallpaperView) -> Seq<char> {
    w.id + "_"@ + decimal(w.dimension_x as nat) + "."@ + extension_of(w.file_type)
}

/// The file name of a downloaded wallpaper.
pub fn file_name(wallpaper: &Wallpaper) -> (res: String)
    ensures
        res@ == file_name_of(wallpaper@),
{
    let mut s = wallpaper.id.clone();
    push_str(&mut s, "_");
    push_decimal(&mut s, wallpaper.dimension_x as u64);
    push_str(&mut s, ".");
    let ext = extension_from_wallpaper(wallpaper);
    push_str(&mut s, ext.as_str());
    assert(s@ =~= file_name_of(wallpaper@));
    s
}

/// Where a wallpaper is stored inside the (expanded) directory
/// `directory`.
pub fn target_path(directory: &str, wallpaper: &Wallpaper) -> (res: String)
    ensures
        res@ == path_join(directory@, file_name_of(wallpaper@)),
{
    let name = file_name(wallpaper);
    join_path(directory, name.as_str())
}

/// The name a download is written under before it is renamed to `path`:
/// the extension of the file name is followed by `.part`. (The file name
/// always ends in `.EXT`, so `Path::with_extension("EXT.part")` gives
/// `path` followed by `.part`.)
pub fn temp_path(path: &str) -> (res: String)
    ensures
        res@ == path@ + ".part"@,
{
    let mut s = owned(path);
    push_str(&mut s, ".part");
    s
}


// ───────────────────────── previews ─────────────────────────

/// A decoded image of the `image` crate, carried through unread.
#[verifier::external_type_specification]
#[verifier::external_body]
pub struct ExDynamicImage(image::DynamicImage);

/// An error of the `image` crate, carried through unread.
#[verifier::external_type_specification]
#[verifier::external_body]
pub struct ExImageError(image::ImageError);

/// Why a preview could not be used: the bytes did not decode, for the
/// reason the `image` crate gives.
pub enum PreviewError {
    Undecodable(image::ImageError),
}

/// Decodes an image file held in memory by calling
/// `image::load_from_memory`. Nothing is stated of the result: which
/// bytes decode depends not only on the bytes but also on the format
/// detection and decoding hooks that any code in the process may register
/// with the `image` crate.
#[verifier::external_body]
fn load_from_memory(bytes: &[u8]) -> (res: Result<image::DynamicImage, image::ImageError>) {
    image::load_from_memory(bytes)
}

/// The preview image downloaded as `bytes`, or why they do not decode.
pub fn decode_preview(bytes: &[u8]) -> (res: Result<image::DynamicImage, PreviewError>) {
    match load_from_memory(bytes) {
        Ok(image) => Ok(image),
        Err(e) => Err(PreviewError::Undecodable(e)),
    }
}

} // verus!
