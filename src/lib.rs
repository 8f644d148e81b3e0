//! A simulated desktop for a personal portfolio: a verified window manager,
//! the rules that turn markdown content into display blocks, and the naming
//! rules for the content that windows show.

pub mod content;
pub mod desktop;
pub mod markdown;
pub mod seq_lemmas;
pub mod text;
