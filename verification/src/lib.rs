pub mod download;
pub mod json;
pub mod numtext;
pub mod progress;
pub mod search;
pub mod text;
pub mod url_cache;
pub mod ytdlp;
pub mod stream_proxy;
pub mod media;
pub mod playlist;
pub mod registry;
pub mod state;
pub mod library;
pub mod update;
