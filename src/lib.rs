//! Verified core of a terminal video-feed browser: channel feed aggregation,
//! cache freshness, topic selection and the overlay command protocol.

pub mod channel;
pub mod cli;
pub mod document;
pub mod feed;
pub mod overlay;
pub mod preview;
pub mod text;
