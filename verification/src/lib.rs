//! Videos that are kept on a device in encrypted form.
//!
//! A video is downloaded ([`downloader`]), encrypted chunk by chunk ([`writer`]) under a key of
//! its own, which a device key wraps ([`keys`]), and entered in an index ([`download`]). To play
//! it, a session is opened ([`sessions`]), and the requests of the player are answered
//! ([`playback`]) with ranges of the video, which are decrypted ([`reader`]) as they are sent
//! ([`streaming`]).

pub mod cache;
pub mod cipher;
pub mod download;
pub mod downloader;
pub mod error;
pub mod greeting;
pub mod header;
pub mod keychain;
pub mod keys;
pub mod layout;
pub mod little_endian;
pub mod logging;
pub mod octets;
pub mod playback;
pub mod random;
pub mod ranges;
pub mod reader;
pub mod response;
pub mod routes;
pub mod secret;
pub mod sessions;
pub mod streaming;
pub mod text;
pub mod video_id;
pub mod watch_progress;
pub mod writer;
