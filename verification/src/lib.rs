//! A small catalog of persons and genres: an ordered, searchable store per
//! entity, one-shot flash messages carried in a cookie, the request handlers
//! that compose the two, and the rendering of their pages.

pub mod flash;
pub mod handlers;
pub mod render;
pub mod store;
pub mod text;
