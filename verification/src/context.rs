//! The options of a run, and the settings from which a build context is made.

use vstd::prelude::*;
use crate::paths::{join_path, joined};

verus! {

/// A build mode that can either be `Debug` or `Release`.
#[derive(Debug, Clone, Copy, PartialEq, Eq, Structural)]
pub enum Mode {
    Debug,
    Release,
}

impl Mode {
    pub fn from_release_flag(release_flag: bool) -> (mode: Mode)
        ensures
            mode == if release_flag {
                Mode::Release
            } else {
                Mode::Debug
            },
    {
        if release_flag {
            Mode::Release
        } else {
            Mode::Debug
        }
    }

    pub fn is_debug(&self) -> (debug: bool)
        ensures
            debug == (*self == Mode::Debug),
    {
        matches!(self, Mode::Debug)
    }

    pub fn is_release(&self) -> (release: bool)
        ensures
            release == (*self == Mode::Release),
    {
        matches!(self, Mode::Release)
    }

    /// The name of the mode, as it stands in paths and profiles.
    pub open spec fn name(self) -> Seq<char> {
        match self {
            Mode::Debug => "debug"@,
            Mode::Release => "release"@,
        }
    }

    /// The name of the mode, as it stands in paths and profiles.
    pub fn to_string(&self) -> (text: String)
        ensures
            text@ == self.name(),
    {
        match self {
            Mode::Debug => "debug".to_owned(),
            Mode::Release => "release".to_owned(),
        }
    }
}

impl Default for Mode {
    fn default() -> (mode: Mode)
        ensures
            mode == Mode::Debug,
    {
        Mode::Debug
    }
}

/// The options of a run.
#[derive(Debug, Clone, Copy)]
pub struct Options {
    pub dry_run: bool,
    pub force: bool,
    pub verbose: bool,
    pub mode: Mode,
}

impl Default for Options {
    fn default() -> (options: Options)
        ensures
            !options.dry_run,
            !options.force,
            !options.verbose,
            options.mode == Mode::Debug,
    {
        Options { dry_run: false, force: false, verbose: false, mode: Mode::Debug }
    }
}

/// The name of the manifest file of a package.
pub const MANIFEST_FILE_NAME: &'static str = "Cargo.toml";

/// The settings from which a build context is made.
#[derive(Debug)]
pub struct ContextBuilder {
    manifest_path: Option<String>,
    options: Options,
}

/// The content of a [`ContextBuilder`].
pub struct ContextBuilderView {
    pub manifest_path: Option<Seq<char>>,
    pub options: Options,
}

impl View for ContextBuilder {
    type V = ContextBuilderView;

    closed spec fn view(&self) -> ContextBuilderView {
        ContextBuilderView {
            manifest_path: match self.manifest_path {
                Some(path) => Some(path@),
                None => None,
            },
            options: self.options,
        }
    }
}

impl Default for ContextBuilder {
    fn default() -> (builder: ContextBuilder)
        ensures
            builder@.manifest_path is None,
            !builder@.options.dry_run,
            !builder@.options.force,
            !builder@.options.verbose,
            builder@.options.mode == Mode::Debug,
    {
        ContextBuilder { manifest_path: None, options: Options::default() }
    }
}

impl ContextBuilder {
    /// Specify the path to the manifest file to use.
    ///
    /// If not called, the default is to use the manifest file in the current
    /// working directory.
    pub fn with_manifest_path(self, manifest_path: &str) -> (builder: ContextBuilder)
        ensures
            builder@ == (ContextBuilderView { manifest_path: Some(manifest_path@), ..self@ }),
    {
        let mut builder = self;
        builder.manifest_path = Some(manifest_path.to_owned());
        builder
    }

    pub fn with_options(self, options: Options) -> (builder: ContextBuilder)
        ensures
            builder@ == (ContextBuilderView { options, ..self@ }),
    {
        let mut builder = self;
        builder.options = options;
        builder
    }

    pub fn options(&self) -> (options: &Options)
        ensures
            *options == self@.options,
    {
        &self.options
    }

    /// The path of the manifest file to use: the one that was specified, or
    /// the manifest file in `current_dir`.
    pub fn manifest_path(&self, current_dir: &str) -> (path: String)
        ensures
            path@ == match self@.manifest_path {
                Some(path) => path,
                None => joined(current_dir@, MANIFEST_FILE_NAME@),
            },
    {
        match &self.manifest_path {
            Some(path) => path.clone(),
            None => join_path(current_dir, MANIFEST_FILE_NAME),
        }
    }
}

} // verus!
