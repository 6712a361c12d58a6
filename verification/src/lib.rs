//! Protocol logic of a file server confined to one directory tree:
//! path confinement, byte-range parsing, response planning, directory
//! listings, archive assembly and upload naming.

pub mod download_multiple;
pub mod encode;
pub mod endpoints;
pub mod kinds;
pub mod listing;
pub mod order;
pub mod paths;
pub mod range;
pub mod reply;
pub mod serve;
pub mod text;
pub mod trusted;
pub mod types;
pub mod upload;
