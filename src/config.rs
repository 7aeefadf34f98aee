//! The settings that a configuration file holds. Every entry is optional.

use vstd::prelude::*;

use crate::position::Position;
use crate::resolution::Resolution;

verus! {

/// The `logo` group of the file.
pub struct LogoInfo {
    /// Image file of the logo.
    pub file_path: Option<String>,
    /// Where the logo is placed.
    pub position: Option<Position>,
}

/// The `output` group of the file.
pub struct OutputInfo {
    /// Size class of the written pictures.
    pub resolution: Option<Resolution>,
    /// Directory the pictures are written to.
    pub output_path: Option<String>,
}

/// A configuration file's contents.
pub struct Config {
    pub logo: Option<LogoInfo>,
    pub output: Option<OutputInfo>,
}

/// The text of an optional string.
pub open spec fn text_of(s: Option<String>) -> Option<Seq<char>> {
    match s {
        Some(t) => Some(t@),
        None => None,
    }
}

/// The size of an optional resolution.
pub open spec fn size_of(r: Option<Resolution>) -> Option<(u32, u32)> {
    match r {
        Some(v) => Some(v@),
        None => None,
    }
}

fn copy_text(s: &Option<String>) -> (r: Option<String>)
    ensures
        text_of(r) == text_of(*s),
{
    match s {
        Some(t) => Some(t.clone()),
        None => None,
    }
}

impl Config {
    pub open spec fn logo_file_path_spec(&self) -> Option<Seq<char>> {
        match self.logo {
            Some(l) => text_of(l.file_path),
            None => None,
        }
    }

    pub open spec fn logo_position_spec(&self) -> Option<Position> {
        match self.logo {
            Some(l) => l.position,
            None => None,
        }
    }

    pub open spec fn output_resolution_spec(&self) -> Option<(u32, u32)> {
        match self.output {
            Some(o) => size_of(o.resolution),
            None => None,
        }
    }

    pub open spec fn output_path_spec(&self) -> Option<Seq<char>> {
        match self.output {
            Some(o) => text_of(o.output_path),
            None => None,
        }
    }

    /// The logo file that the file names, if it names one.
    pub fn logo_file_path(&self) -> (r: Option<String>)
        ensures
            text_of(r) == self.logo_file_path_spec(),
    {
        match &self.logo {
            Some(l) => copy_text(&l.file_path),
            None => None,
        }
    }

    /// The logo position that the file names, if it names one.
    pub fn logo_position(&self) -> (r: Option<Position>)
        ensures
            r == self.logo_position_spec(),
    {
        match &self.logo {
            Some(l) => l.position,
            None => None,
        }
    }

    /// The output resolution that the file names, if it names one.
    pub fn output_resolution(&self) -> (r: Option<Resolution>)
        ensures
            size_of(r) == self.output_resolution_spec(),
    {
        match &self.output {
            Some(o) => o.resolution,
            None => None,
        }
    }

    /// The output directory that the file names, if it names one.
    pub fn output_path(&self) -> (r: Option<String>)
        ensures
            text_of(r) == self.output_path_spec(),
    {
        match &self.output {
            Some(o) => copy_text(&o.output_path),
            None => None,
        }
    }
}

} // verus!
