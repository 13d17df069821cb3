//! The `cute.toml` manifest, and the errors of a build.

use crate::dict::Dict;
use crate::text::{debug_string, debug_text, decimal, decimal_string};
use vstd::prelude::*;
use vstd::string::*;

verus! {

/// `cute.toml`: what a project needs besides its entry file.
#[derive(Debug)]
pub struct Manifest {
    /// Present where the project builds a library rather than a program.
    pub library: Option<Library>,
    pub sources: Sources,
    pub bindings: Bindings,
    pub cmake: CmakeConfig,
    pub cpp: CppConfig,
    /// The libraries that the project depends on.
    pub cute_libraries: CuteLibraries,
}

/// `[library]`.
#[derive(Debug, Clone)]
pub struct Library {
    /// The target name, the `find_package` key and the name of the binding.
    pub name: String,
    pub version: String,
    pub description: String,
}

/// `[sources]`: further source files, relative to the manifest.
#[derive(Debug, Clone)]
pub struct Sources {
    pub paths: Vec<String>,
}

/// `[bindings]`: further binding files, relative to the manifest.
#[derive(Debug, Clone)]
pub struct Bindings {
    pub paths: Vec<String>,
}

/// `[cmake]`.
#[derive(Debug, Clone)]
pub struct CmakeConfig {
    /// The arguments of further `find_package` lines.
    pub find_package: Vec<String>,
    /// Further items of `target_link_libraries`.
    pub link_libraries: Vec<String>,
}

/// `[cpp]`: further headers, with their brackets or quotes.
#[derive(Debug, Clone)]
pub struct CppConfig {
    pub includes: Vec<String>,
}

/// `[cute_libraries]`: names of installed libraries, and where to get others.
#[derive(Debug)]
pub struct CuteLibraries {
    pub deps: Vec<String>,
    pub specs: Dict<CuteLibSpec>,
}

/// `[cute_libraries.<Name>]`: where a library is installed from.
#[derive(Debug, Clone)]
pub struct CuteLibSpec {
    pub git: Option<String>,
    pub rev: Option<String>,
    pub path: Option<String>,
    pub version: Option<String>,
}

impl Default for Sources {
    fn default() -> (r: Sources)
        ensures
            r.paths@.len() == 0,
    {
        Sources { paths: Vec::new() }
    }
}

impl Default for Bindings {
    fn default() -> (r: Bindings)
        ensures
            r.paths@.len() == 0,
    {
        Bindings { paths: Vec::new() }
    }
}

impl Default for CmakeConfig {
    fn default() -> (r: CmakeConfig)
        ensures
            r.find_package@.len() == 0,
            r.link_libraries@.len() == 0,
    {
        CmakeConfig { find_package: Vec::new(), link_libraries: Vec::new() }
    }
}

impl Default for CppConfig {
    fn default() -> (r: CppConfig)
        ensures
            r.includes@.len() == 0,
    {
        CppConfig { includes: Vec::new() }
    }
}

impl Default for CuteLibraries {
    fn default() -> (r: CuteLibraries)
        ensures
            r.deps@.len() == 0,
            r.specs@ == Map::<Seq<char>, CuteLibSpec>::empty(),
    {
        CuteLibraries { deps: Vec::new(), specs: Dict::new() }
    }
}

impl Default for CuteLibSpec {
    fn default() -> (r: CuteLibSpec)
        ensures
            r.git is None && r.rev is None && r.path is None && r.version is None,
    {
        CuteLibSpec { git: None, rev: None, path: None, version: None }
    }
}

impl Default for Manifest {
    fn default() -> (r: Manifest)
        ensures
            r.library is None,
            r.sources.paths@.len() == 0,
            r.bindings.paths@.len() == 0,
            r.cmake.find_package@.len() == 0,
            r.cmake.link_libraries@.len() == 0,
            r.cpp.includes@.len() == 0,
            r.cute_libraries.deps@.len() == 0,
            r.cute_libraries.specs@ == Map::<Seq<char>, CuteLibSpec>::empty(),
    {
        Manifest {
            library: None,
            sources: Sources::default(),
            bindings: Bindings::default(),
            cmake: CmakeConfig::default(),
            cpp: CppConfig::default(),
            cute_libraries: CuteLibraries::default(),
        }
    }
}

/// Why a build failed. Paths are held as text.
#[derive(Debug)]
pub enum DriverError {
    /// The operating system refused.
    Io(String),
    /// A source or binding cannot be parsed.
    Parse(String),
    /// Code generation failed.
    Codegen(String),
    /// The path names no file.
    NoStem(String),
    /// The sources have errors.
    Resolve { count: usize, first: String },
    /// The QML file of the program is missing.
    MissingQml(String),
    /// CMake could not configure the build.
    CmakeConfigure(String),
    /// CMake could not build.
    CmakeBuild(String),
    /// The build left no binary.
    BinaryNotFound(String),
    /// There is no CMake.
    CmakeMissing,
    /// The manifest is invalid.
    Manifest(String),
    /// An imported module has no file.
    UseNotFound { use_path: String, resolved: String },
}

/// What is said of an error.
pub open spec fn error_text(e: DriverError) -> Seq<char> {
    match e {
        DriverError::Io(x) => "io error: "@
            + x@,
        DriverError::Parse(x) => "parse error: "@
            + x@,
        DriverError::Codegen(x) => "codegen error: "@
            + x@,
        DriverError::NoStem(x) => "input has no file stem: "@
            + debug_text(x@),
        DriverError::Resolve { count, first } => decimal(count as nat)
            + " resolution error(s): "@
            + first@,
        DriverError::MissingQml(x) => "QML app expected a sibling `.qml` file at "@
            + debug_text(x@)
            + " - create it next to your `.cute` source"@,
        DriverError::CmakeConfigure(x) => "cmake configure failed:\n"@
            + x@,
        DriverError::CmakeBuild(x) => "cmake build failed:\n"@
            + x@,
        DriverError::BinaryNotFound(x) => "could not locate built binary in "@
            + debug_text(x@),
        DriverError::CmakeMissing => "`cmake` not found on PATH - install cmake (>= 3.21) and Qt 6 to use `cute build` for binaries"@,
        DriverError::Manifest(x) => "invalid cute.toml: "@
            + x@,
        DriverError::UseNotFound { use_path, resolved } => "`use "@
            + use_path@
            + "` did not resolve - expected file at "@
            + debug_text(resolved@),
    }
}

impl DriverError {
    /// What is said of the error.
    pub fn message(&self) -> (r: String)
        ensures
            r@ == error_text(*self),
    {
        match self {
            DriverError::Io(x) => "io error: ".to_owned()
            .concat(x.as_str()),
            DriverError::Parse(x) => "parse error: ".to_owned()
            .concat(x.as_str()),
            DriverError::Codegen(x) => "codegen error: ".to_owned()
            .concat(x.as_str()),
            DriverError::NoStem(x) => "input has no file stem: ".to_owned()
            .concat(debug_string(x.as_str()).as_str()),
            DriverError::Resolve { count, first } => decimal_string(*count as u64).as_str().to_owned()
            .concat(" resolution error(s): ")
            .concat(first.as_str()),
            DriverError::MissingQml(x) => "QML app expected a sibling `.qml` file at ".to_owned()
            .concat(debug_string(x.as_str()).as_str())
            .concat(" - create it next to your `.cute` source"),
            DriverError::CmakeConfigure(x) => "cmake configure failed:\n".to_owned()
            .concat(x.as_str()),
            DriverError::CmakeBuild(x) => "cmake build failed:\n".to_owned()
            .concat(x.as_str()),
            DriverError::BinaryNotFound(x) => "could not locate built binary in ".to_owned()
            .concat(debug_string(x.as_str()).as_str()),
            DriverError::CmakeMissing => "`cmake` not found on PATH - install cmake (>= 3.21) and Qt 6 to use `cute build` for binaries".to_owned(),
            DriverError::Manifest(x) => "invalid cute.toml: ".to_owned()
            .concat(x.as_str()),
            DriverError::UseNotFound { use_path, resolved } => "`use ".to_owned()
            .concat(use_path.as_str())
            .concat("` did not resolve - expected file at ")
            .concat(debug_string(resolved.as_str()).as_str()),
        }
    }
}

} // verus!
