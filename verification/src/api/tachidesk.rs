//! Comics and their sources.

use vstd::prelude::*;
use std::collections::HashMap;

verus! {

/// What to do with an extension.
#[derive(Debug, Clone, Copy, PartialEq, Eq, Structural)]
pub enum ExtensionAction {
    Install,
    Update,
    Uninstall,
}

impl ExtensionAction {
    /// The name of the action in the addresses of the server.
    pub open spec fn name(self) -> Seq<char> {
        match self {
            ExtensionAction::Install => "install"@,
            ExtensionAction::Update => "update"@,
            ExtensionAction::Uninstall => "uninstall"@,
        }
    }

    /// The name of the action in the addresses of the server.
    pub fn as_str(&self) -> (n: &'static str)
        ensures
            n@ == self.name(),
    {
        match self {
            ExtensionAction::Install => "install",
            ExtensionAction::Update => "update",
            ExtensionAction::Uninstall => "uninstall",
        }
    }
}

/// What the server says of itself.
#[derive(Debug, Clone)]
pub struct About {
    pub build_time: u64,
    pub build_type: String,
    pub github: String,
    pub name: String,
    pub version: String,
}

/// An extension of the server.
#[derive(Debug, Clone)]
pub struct Extension {
    pub name: String,
    pub pkg_name: String,
    pub version_name: String,
    pub version_code: u64,
    pub lang: String,
    pub is_nsfw: bool,
    pub apk_name: String,
    pub icon_url: String,
    pub installed: bool,
    pub has_update: bool,
    pub obsolete: bool,
}

/// A source of comics.
#[derive(Debug, Clone)]
pub struct MangaSource {
    pub id: String,
    pub name: String,
    pub lang: String,
    pub icon_url: String,
    pub supports_latest: bool,
    pub is_configurable: bool,
    pub is_nsfw: bool,
    pub display_name: String,
}

/// A value that a source attaches to a comic or a chapter.
#[derive(Debug, Clone)]
pub enum MetaValue {
    String(String),
    Bool(bool),
    U64(u64),
    Nothing,
}

/// A filter that a source offers for its lists.
#[derive(Debug)]
pub enum SourceFilter {
    CheckBox { name: String, state: bool },
    Group { name: String, state: Vec<SourceFilter> },
    Sort { name: String, state: SortFilter, sort_categories: Vec<String> },
    Select {
        name: String,
        selected_index: usize,
        display_values: Vec<String>,
        values: Vec<SelectableItem>,
    },
    TriState { name: String, state: usize, excluded: bool, ignored: bool, included: bool },
    Text { name: String, text_value: String },
    Header { name: String, state: usize },
    Separator { name: String, state: usize },
}

/// The state of a sort filter.
#[derive(Debug, Clone)]
pub struct SortFilter {
    pub selected_index: usize,
    pub ascending: bool,
}

/// One choice of a select filter.
#[derive(Debug)]
pub enum SelectableItem {
    Type1 { title: String, value: String },
    Type2(String),
    Type3(HashMap<String, String>),
}

} // verus!
