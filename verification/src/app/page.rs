//! The pages of the user interface, and the short form of a path.

use vstd::prelude::*;

use crate::text::{opt_text, split, trim, trimmed};
use crate::value::{ascii_lower_string, ascii_lower_text};
use crate::worker::text3;

verus! {

/// The pages of the application.
#[derive(Debug, Clone, Copy, PartialEq, Eq, Structural)]
pub enum Page {
    Overview,
    Discover,
    Points,
    Republish,
    Settings,
    Logs,
}

impl Page {
    pub open spec fn title(self) -> Seq<char> {
        match self {
            Page::Overview => "Overview"@,
            Page::Discover => "Discover"@,
            Page::Points => "Points"@,
            Page::Republish => "Republish"@,
            Page::Settings => "Settings"@,
            Page::Logs => "Logs"@,
        }
    }

    pub fn to_text(self) -> (text: String)
        ensures
            text@ == self.title(),
    {
        match self {
            Page::Overview => "Overview".to_string(),
            Page::Discover => "Discover".to_string(),
            Page::Points => "Points".to_string(),
            Page::Republish => "Republish".to_string(),
            Page::Settings => "Settings".to_string(),
            Page::Logs => "Logs".to_string(),
        }
    }
}

/// The page that a name stands for, whatever its case; the overview where there is no such name.
pub open spec fn page_named(name: Option<Seq<char>>) -> Page {
    match name {
        None => Page::Overview,
        Some(text) => {
            let lower = ascii_lower_text(trimmed(text));
            if lower == "discover"@ {
                Page::Discover
            } else if lower == "points"@ {
                Page::Points
            } else if lower == "republish"@ || lower == "publish"@ {
                Page::Republish
            } else if lower == "settings"@ {
                Page::Settings
            } else if lower == "logs"@ {
                Page::Logs
            } else {
                Page::Overview
            }
        },
    }
}

/// The page to begin with.
pub fn initial_page(name: Option<&str>) -> (page: Page)
    ensures
        page == page_named(
            match name {
                Some(text) => Some(text@),
                None => None,
            },
        ),
{
    match name {
        None => Page::Overview,
        Some(text) => {
            let lower = ascii_lower_string(trim(text).as_str());
            if lower == "discover".to_string() {
                Page::Discover
            } else if lower == "points".to_string() {
                Page::Points
            } else if lower == "republish".to_string() || lower == "publish".to_string() {
                Page::Republish
            } else if lower == "settings".to_string() {
                Page::Settings
            } else if lower == "logs".to_string() {
                Page::Logs
            } else {
                Page::Overview
            }
        },
    }
}

/// The paths that are read alike on Unix and on Windows: they have neither a backslash nor a
/// drive, and do not begin with two slashes, behind which Windows expects a server and a share.
pub open spec fn is_portable(path: Seq<char>) -> bool {
    &&& !path.contains('\\')
    &&& !path.contains(':')
    &&& !(path.len() >= 2 && path[0] == '/' && path[1] == '/')
}

/// The components of a portable path, without a root: what stands between its slashes, empty parts
/// and `.` left out.
pub open spec fn components(path: Seq<char>) -> Seq<Seq<char>> {
    split(path, '/').filter(|part: Seq<char>| part.len() > 0 && part != "."@)
}

/// The name that components end with: none where there are none, or where `..` is the last.
pub open spec fn last_name(parts: Seq<Seq<char>>) -> Option<Seq<char>> {
    if parts.len() == 0 || parts.last() == ".."@ {
        None
    } else {
        Some(parts.last())
    }
}

/// The components without the last.
pub open spec fn without_last(parts: Seq<Seq<char>>) -> Seq<Seq<char>> {
    if parts.len() == 0 {
        parts
    } else {
        parts.drop_last()
    }
}

/// `Path::file_name`: the last component of a path, if it is a name. What separates the components
/// of other than portable paths depends on the machine: nothing is said of those.
#[verifier::external_body]
fn file_name_of(path: &str) -> (name: Option<String>)
    ensures
        is_portable(path@) ==> opt_text(name) == last_name(components(path@)),
{
    std::path::Path::new(path).file_name().and_then(|name| name.to_str()).map(
        |name| name.to_string(),
    )
}

/// `Path::parent`: a path without its last component. A path without components may have none.
/// What separates the components of other than portable paths depends on the machine: nothing is
/// said of those.
#[verifier::external_body]
fn parent_of(path: &str) -> (parent: Option<String>)
    ensures
        is_portable(path@) && components(path@).len() > 0 ==> parent is Some,
        is_portable(path@) && parent is Some ==> is_portable(parent->Some_0@) && components(
            parent->Some_0@,
        ) == without_last(components(path@)),
{
    std::path::Path::new(path).parent().and_then(|parent| parent.to_str()).map(
        |parent| parent.to_string(),
    )
}

/// A path in short: its file name, behind the name of the directory where it has one.
pub open spec fn short_path(file_name: Option<Seq<char>>, parent_name: Option<Seq<char>>) -> Seq<
    char,
> {
    let file = match file_name {
        Some(name) => name,
        None => "config.toml"@,
    };
    match parent_name {
        Some(parent) => parent + "/"@ + file,
        None => file,
    }
}

/// A path in short, from the names of its file and of its directory.
pub fn compact_path(file_name: Option<String>, parent_name: Option<String>) -> (text: String)
    ensures
        text@ == short_path(opt_text(file_name), opt_text(parent_name)),
{
    let file = match file_name {
        Some(name) => name,
        None => "config.toml".to_string(),
    };
    match parent_name {
        Some(parent) => text3(parent.as_str(), "/", file.as_str()),
        None => file,
    }
}

/// A path in short.
pub fn compact_config_path(path: &str) -> (text: String)
    ensures
        is_portable(path@) ==> text@ == short_path(
            last_name(components(path@)),
            last_name(without_last(components(path@))),
        ),
{
    let parent_name = match parent_of(path) {
        Some(parent) => file_name_of(parent.as_str()),
        None => None,
    };
    compact_path(file_name_of(path), parent_name)
}

} // verus!
