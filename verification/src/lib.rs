//! RenderX: an RSX (JSX-like) markup grammar over token trees, the code it
//! generates, and an HTML renderer for the resulting DOM.

pub mod basic;
pub mod component;
pub mod default_detector;
pub mod dom;
pub mod emit;
pub mod makro;
pub mod parser;
pub mod render;
pub mod server_render;
pub mod text;
pub mod token;
