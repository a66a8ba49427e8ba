//! Verified core of an image and document viewer.
use vstd::prelude::*;

pub mod paths;
pub mod history;
pub mod text;
pub mod tools;
pub mod blur;
pub mod format;
pub mod config;
pub mod recent;
pub mod imaging;
pub mod orientation;
pub mod thumbnail;
pub mod viewer;
pub mod markup;
pub mod render;
pub mod sorting;
pub mod gallery;
pub mod formats;
pub mod forms;
pub mod comic;
pub mod sidebar;
pub mod input;
pub mod shapes;
pub mod slideshow;
pub mod ipc;
pub mod annotations;

verus! {
} // verus!
