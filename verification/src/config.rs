//! Viewer configuration and its defaults.
//!
//! Reading `config.toml` is done by the program around the library; here
//! are the configuration types and the values a missing key takes.
use vstd::prelude::*;
use crate::thumbnail::{join_path, join_path_string};

verus! {

/// The whole configuration file.
#[derive(Debug, Clone)]
pub struct Config {
    pub general: GeneralConfig,
    pub images: ImageConfig,
}

/// The `[general]` table.
#[derive(Debug, Clone)]
pub struct GeneralConfig {
    pub default_zoom: String,
    pub remember_position: bool,
    pub remember_zoom: bool,
    pub background_color: String,
}

/// The `[images]` table.
#[derive(Debug, Clone)]
pub struct ImageConfig {
    pub auto_rotate_exif: bool,
    pub interpolation: String,
}

/// Default zoom mode: fit the image to the window.
pub fn default_zoom() -> (s: String)
    ensures
        s@ == "fit"@,
{
    String::from_str("fit")
}

/// Default background colour.
pub fn default_bg() -> (s: String)
    ensures
        s@ == "#1a1b26"@,
{
    String::from_str("#1a1b26")
}

/// Default for flags that are on unless configured off.
pub fn default_true() -> (b: bool)
    ensures
        b,
{
    true
}

/// Default interpolation filter.
pub fn default_interpolation() -> (s: String)
    ensures
        s@ == "lanczos"@,
{
    String::from_str("lanczos")
}

impl Default for GeneralConfig {
    fn default() -> (c: Self)
        ensures
            c.default_zoom@ == "fit"@,
            !c.remember_position,
            !c.remember_zoom,
            c.background_color@ == "#1a1b26"@,
    {
        GeneralConfig {
            default_zoom: default_zoom(),
            remember_position: false,
            remember_zoom: false,
            background_color: default_bg(),
        }
    }
}

impl Default for ImageConfig {
    fn default() -> (c: Self)
        ensures
            c.auto_rotate_exif,
            c.interpolation@ == "lanczos"@,
    {
        ImageConfig { auto_rotate_exif: default_true(), interpolation: default_interpolation() }
    }
}

impl Default for Config {
    fn default() -> (c: Self)
        ensures
            c.general.default_zoom@ == "fit"@,
            !c.general.remember_position,
            !c.general.remember_zoom,
            c.general.background_color@ == "#1a1b26"@,
            c.images.auto_rotate_exif,
            c.images.interpolation@ == "lanczos"@,
    {
        Config { general: GeneralConfig::default(), images: ImageConfig::default() }
    }
}


/// Where the configuration file lives: `garview/config.toml` in the user's
/// configuration directory, or under `~/.config` when there is none.
pub open spec fn config_file_path(config_dir: Option<Seq<char>>) -> Seq<char> {
    join_path(
        match config_dir {
            Some(d) => d,
            None => "~/.config"@,
        },
        "garview/config.toml"@,
    )
}

/// The configuration file's path, given the user's configuration
/// directory if there is one (see `config_file_path`).
pub fn config_path(config_dir: Option<&str>) -> (p: String)
    ensures
        p@ == config_file_path(
            match config_dir {
                Some(d) => Some(d@),
                None => None,
            },
        ),
{
    let dir = match config_dir {
        Some(d) => d,
        None => "~/.config",
    };
    join_path_string(dir, "garview/config.toml")
}

} // verus!
