//! Wally: choosing, fetching and keeping desktop wallpapers from
//! Wallhaven and Konachan. This crate holds the decisions and the data;
//! the program around it performs the network, file and terminal work.
pub mod browser;
pub mod cli;
pub mod downloader;
pub mod history;
pub mod locations;
pub mod paths;
pub mod search;
pub mod sources;
pub mod text;
pub mod wallpaper;
