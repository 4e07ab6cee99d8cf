//! The decisions of a chat bridge server: how it reads its configuration, how it
//! checks and stores uploaded media, and how it answers requests.
//!
//! Every function takes what the outside world said as plain values and says what
//! to do next; files, sockets and the clock are handled by the program around it.

pub mod config;
pub mod config_laws;
pub mod media;
pub mod names;
pub mod service;
pub mod status;
pub mod text;
pub mod text_laws;
