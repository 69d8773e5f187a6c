//! Line-oriented substring search over a text held in memory, with the
//! settings of one search resolved from a command line and the environment.
//!
//! - `config`: the settings, and the rule by which arguments and environment
//!   give them.
//! - `lines`: what the lines of a text are, and how a text is cut into them.
//! - `search`: which lines a search finds, with case counting or not.
//! - `order`: what it means that the lines found stand in the text in their
//!   order.
//! - `encoding`: the facts about UTF-8 that cutting a `str` rests on.
//!
//! Every function states what it returns over the characters of its
//! arguments, and is proved to return it. Two calls into the standard
//! library are taken on trust, both in `search`: the test whether one string
//! stands in another, and the lowercase form of a string.

pub mod config;
pub mod encoding;
pub mod lines;
pub mod order;
pub mod search;

pub use crate::config::ArgumentError;
pub use crate::config::Config;
pub use crate::search::search;
pub use crate::search::search_case_insensitive;
pub use crate::search::search_with;
