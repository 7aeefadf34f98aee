//! The settings of a run: the layer given on the command line, merged with a
//! configuration file and the built-in defaults, then checked into the
//! immutable `Settings` that a batch reads.

use vstd::prelude::*;
use vstd::string::{StrSliceExecFns, StringExecFns};

use crate::config::{size_of, text_of, Config};
use crate::position::Position;
use crate::resolution::{PresetResolution, Resolution};

verus! {

/// Why the settings of a run cannot be used.
#[derive(Debug, PartialEq, Eq)]
pub enum ConfigError {
    /// The configuration file given on the command line does not exist.
    ConfigMissing(String),
    /// The configuration file's path holds something other than a file.
    ConfigNotFile(String),
    /// The output path is not a directory.
    OutputNotDirectory(String),
    /// The logo path is not a file.
    LogoNotFile(String),
    /// No layer names a logo file.
    LogoNotSpecified,
    /// An input is neither a file nor a directory.
    InputNotFound(String),
}

/// The settings given on the command line; an absent entry falls through to
/// the configuration file, then to the defaults.
pub struct Options {
    pub config_file: Option<String>,
    pub output_path: Option<String>,
    pub logo_file_path: Option<String>,
    pub logo_position: Option<Position>,
    pub resolution: Option<Resolution>,
    pub force: bool,
    pub show_options: bool,
    pub inputs: Vec<String>,
}

/// The text of each string.
pub open spec fn texts_of(v: Seq<String>) -> Seq<Seq<char>> {
    v.map_values(|s: String| s@)
}

/// The first entry that is present, in order of precedence.
pub open spec fn first_of<T>(first: Option<T>, second: Option<T>) -> Option<T> {
    match first {
        Some(v) => Some(v),
        None => second,
    }
}

/// The configuration file inside the platform's per-user configuration
/// directory `dir`: `<dir>/watermarker/config.toml`.
pub open spec fn config_file_in(dir: Seq<char>) -> Seq<char> {
    let sep = if dir.len() > 0 && dir.last() == '/' {
        Seq::<char>::empty()
    } else {
        seq!['/']
    };
    dir + sep + "watermarker/config.toml"@
}

/// The default configuration file, given the platform's per-user
/// configuration directory.
pub fn default_config_path(config_dir: &str) -> (r: String)
    ensures
        r@ == config_file_in(config_dir@),
{
    let mut r = String::from_str(config_dir);
    let n = config_dir.unicode_len();
    if !(n > 0 && config_dir.get_char(n - 1) == '/') {
        r.append("/");
        proof {
            reveal_strlit("/");
        }
    }
    r.append("watermarker/config.toml");
    r
}

impl Options {
    pub open spec fn output_path_spec(&self) -> Seq<char> {
        match self.output_path {
            Some(p) => p@,
            None => seq!['.'],
        }
    }

    pub open spec fn logo_position_spec(&self) -> Position {
        match self.logo_position {
            Some(p) => p,
            None => Position::BottomRight,
        }
    }

    pub open spec fn resolution_spec(&self) -> (u32, u32) {
        match self.resolution {
            Some(r) => r@,
            None => PresetResolution::HD.size(),
        }
    }

    /// The output directory; the working directory by default.
    pub fn output_path(&self) -> (r: String)
        ensures
            r@ == self.output_path_spec(),
    {
        match &self.output_path {
            Some(p) => p.clone(),
            None => {
                let mut s = String::new();
                s.append(".");
                proof {
                    reveal_strlit(".");
                }
                assert(s@ == seq!['.']);
                s
            },
        }
    }

    /// The logo position; the bottom right corner by default.
    pub fn logo_position(&self) -> (r: Position)
        ensures
            r == self.logo_position_spec(),
    {
        match self.logo_position {
            Some(p) => p,
            None => Position::BottomRight,
        }
    }

    /// The output resolution; HD by default.
    pub fn resolution(&self) -> (r: Resolution)
        ensures
            r@ == self.resolution_spec(),
    {
        match self.resolution {
            Some(r) => r,
            None => PresetResolution::HD.resolution(),
        }
    }

    /// The configuration file to look at: the one given, else `default_path`.
    pub fn config_path(&self, default_path: &String) -> (r: String)
        ensures
            r@ == match self.config_file {
                Some(p) => p@,
                None => default_path@,
            },
    {
        match &self.config_file {
            Some(p) => p.clone(),
            None => default_path.clone(),
        }
    }

    /// Decides whether the configuration file at `path` (as `config_path`
    /// chose it) is read, given whether something exists there and whether
    /// it is a file. A missing file is an error only where it was given on
    /// the command line.
    pub fn check_config_path(&self, path: String, exists: bool, is_file: bool) -> (r: Result<
        Option<String>,
        ConfigError,
    >)
        ensures
            !exists && self.config_file is Some ==> (r matches Err(ConfigError::ConfigMissing(t))
                && t@ == path@),
            !exists && self.config_file is None ==> r matches Ok(None),
            exists && !is_file ==> (r matches Err(ConfigError::ConfigNotFile(t)) && t@ == path@),
            exists && is_file ==> (r matches Ok(Some(t)) && t@ == path@),
    {
        if !exists {
            if self.config_file.is_some() {
                Err(ConfigError::ConfigMissing(path))
            } else {
                Ok(None)
            }
        } else if !is_file {
            Err(ConfigError::ConfigNotFile(path))
        } else {
            Ok(Some(path))
        }
    }

    /// Fills each entry that the command line left out from the
    /// configuration file.
    pub fn apply_config(&mut self, config: &Config)
        ensures
            text_of(final(self).logo_file_path) == first_of(
                text_of(old(self).logo_file_path),
                config.logo_file_path_spec(),
            ),
            final(self).logo_position == first_of(
                old(self).logo_position,
                config.logo_position_spec(),
            ),
            size_of(final(self).resolution) == first_of(
                size_of(old(self).resolution),
                config.output_resolution_spec(),
            ),
            text_of(final(self).output_path) == first_of(
                text_of(old(self).output_path),
                config.output_path_spec(),
            ),
            text_of(final(self).config_file) == text_of(old(self).config_file),
            final(self).force == old(self).force,
            final(self).show_options == old(self).show_options,
            final(self).inputs@ == old(self).inputs@,
    {
        if self.logo_file_path.is_none() {
            self.logo_file_path = config.logo_file_path();
        }
        if self.logo_position.is_none() {
            self.logo_position = config.logo_position();
        }
        if self.resolution.is_none() {
            self.resolution = config.output_resolution();
        }
        if self.output_path.is_none() {
            self.output_path = config.output_path();
        }
    }
}

/// What a `Settings` holds.
pub struct SettingsView {
    pub config_file: Option<Seq<char>>,
    pub output_path: Seq<char>,
    pub logo_file_path: Seq<char>,
    pub logo_position: Position,
    pub resolution: (u32, u32),
    pub force: bool,
    pub show_options: bool,
    pub inputs: Seq<Seq<char>>,
}

/// The checked settings of a run. Nothing changes them once made.
pub struct Settings {
    config_file: Option<String>,
    output_path: String,
    logo_file_path: String,
    logo_position: Position,
    resolution: Resolution,
    force: bool,
    show_options: bool,
    inputs: Vec<String>,
}

impl View for Settings {
    type V = SettingsView;

    closed spec fn view(&self) -> SettingsView {
        SettingsView {
            config_file: text_of(self.config_file),
            output_path: self.output_path@,
            logo_file_path: self.logo_file_path@,
            logo_position: self.logo_position,
            resolution: self.resolution@,
            force: self.force,
            show_options: self.show_options,
            inputs: texts_of(self.inputs@),
        }
    }
}

impl Settings {
    /// The configuration file given on the command line, if one was.
    pub fn config_file(&self) -> (r: &Option<String>)
        ensures
            text_of(*r) == self@.config_file,
    {
        &self.config_file
    }

    pub fn output_path(&self) -> (r: &String)
        ensures
            r@ == self@.output_path,
    {
        &self.output_path
    }

    pub fn logo_file_path(&self) -> (r: &String)
        ensures
            r@ == self@.logo_file_path,
    {
        &self.logo_file_path
    }

    pub fn logo_position(&self) -> (r: Position)
        ensures
            r == self@.logo_position,
    {
        self.logo_position
    }

    pub fn resolution(&self) -> (r: Resolution)
        ensures
            r@ == self@.resolution,
    {
        self.resolution
    }

    /// Whether existing output files are overwritten.
    pub fn is_force(&self) -> (r: bool)
        ensures
            r == self@.force,
    {
        self.force
    }

    /// Whether the run only shows its settings.
    pub fn is_show_options(&self) -> (r: bool)
        ensures
            r == self@.show_options,
    {
        self.show_options
    }

    pub fn inputs(&self) -> (r: &Vec<String>)
        ensures
            texts_of(r@) == self@.inputs,
    {
        &self.inputs
    }

    /// Whether a picture is left alone, given whether its output file
    /// exists: it is when the file exists and overwriting is not allowed.
    pub fn skips(&self, output_exists: bool) -> (r: bool)
        ensures
            r == (output_exists && !self@.force),
    {
        output_exists && !self.force
    }
}

/// Where the first `false` of `found` stands.
pub open spec fn is_first_missing(found: Seq<bool>, i: int) -> bool {
    0 <= i < found.len() && !found[i] && forall|j: int| 0 <= j < i ==> #[trigger] found[j]
}

impl Options {
    /// The settings these options give, with the defaults filled in.
    pub open spec fn settings_spec(&self) -> SettingsView {
        SettingsView {
            config_file: text_of(self.config_file),
            output_path: self.output_path_spec(),
            logo_file_path: text_of(self.logo_file_path)->Some_0,
            logo_position: self.logo_position_spec(),
            resolution: self.resolution_spec(),
            force: self.force,
            show_options: self.show_options,
            inputs: texts_of(self.inputs@),
        }
    }

    /// Checks the merged options and makes the settings of the run.
    /// `output_is_dir` tells whether the output path given is a directory,
    /// `logo_is_file` whether the logo path given is a file, and
    /// `input_found[i]` whether the `i`-th input is a file or a directory.
    /// The checks run in that order and the first that fails is reported.
    pub fn validate(self, output_is_dir: bool, logo_is_file: bool, input_found: &Vec<bool>) -> (r:
        Result<Settings, ConfigError>)
        requires
            input_found.len() == self.inputs.len(),
        ensures
            self.output_path is Some && !output_is_dir ==> (r matches Err(
                ConfigError::OutputNotDirectory(t),
            ) && t@ == self.output_path->Some_0@),
            !(self.output_path is Some && !output_is_dir) && self.logo_file_path is None ==> r
                matches Err(ConfigError::LogoNotSpecified),
            !(self.output_path is Some && !output_is_dir) && self.logo_file_path is Some
                && !logo_is_file ==> (r matches Err(ConfigError::LogoNotFile(t)) && t@
                == self.logo_file_path->Some_0@),
            !(self.output_path is Some && !output_is_dir) && self.logo_file_path is Some
                && logo_is_file && (exists|i: int| is_first_missing(input_found@, i)) ==> (r
                matches Err(ConfigError::InputNotFound(t)) && exists|i: int|
                is_first_missing(input_found@, i) && t@ == self.inputs@[i]@),
            !(self.output_path is Some && !output_is_dir) && self.logo_file_path is Some
                && logo_is_file && (forall|i: int|
                0 <= i < input_found.len() ==> #[trigger] input_found@[i]) ==> (r matches Ok(s)
                && s@ == self.settings_spec()),
    {
        let output_path = self.output_path();
        let logo_position = self.logo_position();
        let resolution = self.resolution();
        if self.output_path.is_some() && !output_is_dir {
            return Err(ConfigError::OutputNotDirectory(output_path));
        }
        let logo_file_path = match self.logo_file_path {
            Some(p) => {
                if !logo_is_file {
                    return Err(ConfigError::LogoNotFile(p));
                }
                p
            },
            None => {
                return Err(ConfigError::LogoNotSpecified);
            },
        };
        let mut i: usize = 0;
        while i < input_found.len()
            invariant
                input_found.len() == self.inputs.len(),
                !(self.output_path is Some && !output_is_dir),
                self.logo_file_path is Some,
                logo_is_file,
                logo_file_path@ == self.logo_file_path->Some_0@,
                output_path@ == self.output_path_spec(),
                logo_position == self.logo_position_spec(),
                resolution@ == self.resolution_spec(),
                i <= input_found.len(),
                forall|j: int| 0 <= j < i ==> #[trigger] input_found@[j],
            decreases input_found.len() - i,
        {
            if !input_found[i] {
                assert(is_first_missing(input_found@, i as int));
                return Err(ConfigError::InputNotFound(self.inputs[i].clone()));
            }
            i = i + 1;
        }
        let settings = Settings {
            config_file: self.config_file,
            output_path,
            logo_file_path,
            logo_position,
            resolution,
            force: self.force,
            show_options: self.show_options,
            inputs: self.inputs,
        };
        assert(settings@.inputs == texts_of(self.inputs@));
        Ok(settings)
    }
}

} // verus!
