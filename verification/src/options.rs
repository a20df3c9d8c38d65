//! What the server is configured with.

use crate::language::LanguageMap;
use std::collections::HashMap;
use vstd::prelude::*;
use vstd::string::*;

verus! {

/// The options as the editor sends them, each with its default where the
/// editor leaves it out.
#[derive(Clone, Debug, PartialEq, Eq)]
pub struct InitOptions {
    /// Additional allowed words, by language.
    pub dictionary: HashMap<String, Vec<String>>,
    /// Rules of the analyzer to leave out, by language.
    pub disabled_checks: HashMap<String, Vec<String>>,
    /// The language tags to analyze with.
    pub languages: Vec<String>,
    /// Use the analyzer that is built in.
    pub bundled: bool,
    /// Use the analyzer in this JAR file.
    pub jar_location: Option<String>,
    /// Host of a remote analyzer.
    pub host: Option<String>,
    /// Port of a remote analyzer.
    pub port: Option<String>,
    /// The most text, in bytes, to send to the analyzer at once.
    pub chunk_size: usize,
    /// How long, in nanoseconds, the document must rest after a change
    /// before it is checked. Without it a document is checked when it is
    /// opened and when it is saved, and not when it changes.
    pub on_change: Option<u64>,
    /// The project's root directory.
    pub root: Option<String>,
    /// The project's main file.
    pub main: Option<String>,
}

impl Default for InitOptions {
    fn default() -> (options: Self)
        ensures
            options.dictionary@ == Map::<String, Vec<String>>::empty(),
            options.disabled_checks@ == Map::<String, Vec<String>>::empty(),
            options.languages@.len() == 0,
            !options.bundled,
            options.jar_location is None,
            options.host is None,
            options.port is None,
            options.chunk_size == 1000,
            options.on_change is None,
            options.root is None,
            options.main is None,
    {
        Self {
            dictionary: HashMap::new(),
            disabled_checks: HashMap::new(),
            languages: Vec::new(),
            bundled: false,
            jar_location: None,
            host: None,
            port: None,
            chunk_size: 1000,
            on_change: None,
            root: None,
            main: None,
        }
    }
}

/// `Path::is_absolute`: whether a path says where it is without a directory
/// to start from. What counts as such a path differs between systems.
#[verifier::external_body]
fn path_is_absolute(path: &str) -> bool {
    std::path::Path::new(path).is_absolute()
}

/// `Path::join`: the path `path` as seen from the directory `base`.
#[verifier::external_body]
fn path_join(base: &str, path: &str) -> String {
    std::path::Path::new(base).join(path).to_string_lossy().into_owned()
}

/// The path to use for `path`: itself when it is absolute, else `joined`.
pub fn settle_path(path: String, absolute: bool, joined: String) -> (settled: String)
    ensures
        settled@ == if absolute {
            path@
        } else {
            joined@
        },
{
    if absolute {
        path
    } else {
        joined
    }
}

/// The path `path` made independent of the working directory `cwd`.
fn absolute_path(cwd: &str, path: String) -> String {
    let absolute = path_is_absolute(path.as_str());
    let joined = path_join(cwd, path.as_str());
    settle_path(path, absolute, joined)
}

impl InitOptions {
    /// Makes the main file and the root directory independent of the
    /// working directory `cwd`. An option that is not set stays unset, and
    /// no other option changes.
    pub fn make_absolute(&mut self, cwd: &str)
        ensures
            final(self).main is Some <==> old(self).main is Some,
            final(self).root is Some <==> old(self).root is Some,
            final(self).dictionary == old(self).dictionary,
            final(self).disabled_checks == old(self).disabled_checks,
            final(self).languages == old(self).languages,
            final(self).bundled == old(self).bundled,
            final(self).jar_location == old(self).jar_location,
            final(self).host == old(self).host,
            final(self).port == old(self).port,
            final(self).chunk_size == old(self).chunk_size,
            final(self).on_change == old(self).on_change,
    {
        let main = match self.main.take() {
            Some(path) => Some(absolute_path(cwd, path)),
            None => None,
        };
        self.main = main;
        let root = match self.root.take() {
            Some(path) => Some(absolute_path(cwd, path)),
            None => None,
        };
        self.root = root;
    }
}

/// The options that steer the server while it runs.
pub struct Options {
    /// The most text, in bytes, to send to the analyzer at once.
    pub chunk_size: usize,
    /// The rest, in nanoseconds, after a change before a check.
    pub on_change: Option<u64>,
    /// The configured language tags, by base language.
    pub language_codes: LanguageMap,
}

} // verus!
