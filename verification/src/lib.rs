//! Asset viewer core: the state and the rules of a desktop image and video viewer.

pub mod text;
pub mod path;
pub mod media;
pub mod pathmap;
pub mod sort;
pub mod scan;
pub mod diff;
pub mod reading;
pub mod history;
pub mod recent;
pub mod index;
pub mod loader;
pub mod picture;
pub mod thumbs;
pub mod grid;
pub mod slideshow;
pub mod single;
pub mod settings;
pub mod tree;
pub mod cache;
pub mod log;
pub mod streak;
pub mod os_dnd;
pub mod pixels;
pub mod appdata;
pub mod work;
pub mod viewer;
pub mod actions;
pub mod start;
pub mod frames;
pub mod laws;
pub mod steady;
pub mod conduct;
pub mod handling;
