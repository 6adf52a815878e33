//! The posting and thread engine of an anonymous message board.
//!
//! Visitors start threads and reply to them; threads are listed most recently
//! active first, a fixed number per page. This crate holds the data model, the
//! ordering and pagination rules, the rendering of posts into markup and the
//! decisions of the submission pipeline. Apart from reading the clock and
//! drawing random names for uploaded files it touches nothing outside itself:
//! callers hand it plain values and persist or send what it returns.
//!
//! Every executable function is verified against a contract that is stated
//! over the views of its arguments. What is taken on trust is marked as such
//! where it stands: a handful of calls into the standard library and into the
//! crates `regex`, `chrono`, `uuid`, `image`, `html_escape`, `shakmaty` and
//! `url`.

pub mod clock;
pub mod diagram;
pub mod journal;
pub mod laws;
pub mod model;
pub mod pages;
pub mod paging;
pub mod quote;
pub mod render;
pub mod setup;
pub mod store;
pub mod submit;
pub mod text;
pub mod upload;

