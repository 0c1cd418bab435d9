//! A small gallery toolkit: it turns lists of media links gathered from two
//! content platforms into one self-contained, tabbed, keyboard-navigable
//! HTML page, and supplies the logic behind the platform fetchers, the
//! embedded-link resolver, the query-argument validation and the local
//! server's request handling. Network and filesystem work stay outside the
//! library: callers hand in decoded values and carry the results out.

pub mod args;
pub mod gallery;
pub mod imageboard;
pub mod listing;
pub mod media;
pub mod resolver;
pub mod server;
pub mod textutil;
