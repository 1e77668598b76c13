//! Terminal emulation core: the screen model driven by a VT escape-sequence
//! parser, together with the text, selection, link and input rules of the
//! terminal front end.

pub mod cell;
pub mod charset;
pub mod color;
pub mod text;
pub mod action;
pub mod performer;
pub mod terminal;
pub mod history;
pub mod selection;
pub mod links;
pub mod settings;
pub mod input;
pub mod session;
pub mod appearance;
pub mod pointer;
pub mod pending;
pub mod redraw;
