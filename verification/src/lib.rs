//! Verified core of gangplank: the state, text editing, layout and text
//! generation behind the GPUI hooks and the shader effect crate.

pub mod keys;
pub mod params;
pub mod text;
pub mod text_input;
pub mod open_files;
pub mod paths;
pub mod bundle;
pub mod shadertoy;
pub mod effect;
pub mod wgsl;
pub mod resource;
pub mod debounce;
pub mod clipboard;
pub mod interval;
pub mod previous;
pub mod file_watch;
pub mod command;
pub mod persisted;
pub mod window_state;
pub mod selectable_text;
