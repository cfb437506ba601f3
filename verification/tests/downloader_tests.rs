use wally::downloader::{
    expand_home, expand_home_with, extension_from_wallpaper, file_name, target_path, temp_path,
};
use wally::paths::join_path;
use wally::sources::{Thumbnails, Wallpaper};

fn wallpaper(id: &str, file_type: &str) -> Wallpaper {
    Wallpaper {
        id: id.to_string(),
        url: format!("https://wallhaven.cc/w/{id}"),
        purity: "sfw".to_string(),
        category: "general".to_string(),
        dimension_x: 2560,
        dimension_y: 1440,
        resolution: "2560x1440".to_string(),
        path: format!("https://w.wallhaven.cc/full/{id}"),
        file_type: file_type.to_string(),
        thumbs: Thumbnails { large: "l".to_string(), original: "o".to_string(), small: "s".to_string() },
    }
}

#[test]
fn extension_follows_the_media_type() {
    assert_eq!(extension_from_wallpaper(&wallpaper("a", "image/png")), "png");
    assert_eq!(extension_from_wallpaper(&wallpaper("a", "image/webp")), "webp");
    assert_eq!(extension_from_wallpaper(&wallpaper("a", "image/gif")), "gif");
    assert_eq!(extension_from_wallpaper(&wallpaper("a", "image/jpeg")), "jpg");
    assert_eq!(extension_from_wallpaper(&wallpaper("a", "text/plain")), "jpg");
}

#[test]
fn file_name_is_id_width_and_extension() {
    assert_eq!(file_name(&wallpaper("x8k2", "image/png")), "x8k2_2560.png");
    assert_eq!(target_path("/home/u/walls", &wallpaper("x8k2", "image/jpeg")), "/home/u/walls/x8k2_2560.jpg");
    assert_eq!(target_path("/home/u/walls/", &wallpaper("x8k2", "image/gif")), "/home/u/walls/x8k2_2560.gif");
}

#[test]
fn partial_file_sits_beside_the_target() {
    assert_eq!(temp_path("/w/a_1.jpg"), "/w/a_1.jpg.part");
}

#[test]
fn home_is_expanded() {
    assert_eq!(expand_home_with("~/Pictures", Some("/home/u".to_string())), "/home/u/Pictures");
    assert_eq!(expand_home_with("~", Some("/home/u".to_string())), "/home/u");
    assert_eq!(expand_home_with("~", None), ".");
    assert_eq!(expand_home_with("~/Pictures", None), "~/Pictures");
    assert_eq!(expand_home_with("/abs/dir", Some("/home/u".to_string())), "/abs/dir");
    assert_eq!(expand_home_with("~other/x", Some("/home/u".to_string())), "~other/x");
}

#[test]
fn home_of_this_process_is_expanded() {
    assert_eq!(expand_home("/abs/dir"), "/abs/dir");
    let expanded = expand_home("~/Pictures");
    assert!(expanded.ends_with("Pictures"));
}

#[test]
fn paths_are_joined() {
    assert_eq!(join_path("/a", "b"), "/a/b");
    assert_eq!(join_path("/a/", "b"), "/a/b");
    assert_eq!(join_path("/a", "/b"), "/b");
    assert_eq!(join_path("", "b"), "b");
}

#[test]
fn preview_bytes_are_decoded() {
    let mut bytes: Vec<u8> = Vec::new();
    image::DynamicImage::ImageRgb8(image::RgbImage::new(3, 2))
        .write_to(&mut std::io::Cursor::new(&mut bytes), image::ImageFormat::Png)
        .unwrap();
    let decoded = match wally::downloader::decode_preview(&bytes) {
        Ok(image) => image,
        Err(_) => panic!("a PNG made by the image crate decodes"),
    };
    assert_eq!(decoded.width(), 3);
    assert_eq!(decoded.height(), 2);
    assert!(wally::downloader::decode_preview(b"not an image").is_err());
    assert!(wally::downloader::decode_preview(&[]).is_err());
}
