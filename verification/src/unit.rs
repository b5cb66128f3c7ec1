//! The data that travels from discovery to download.
use std::collections::VecDeque;
use vstd::prelude::*;
use vstd::string::StringExecFns;

verus! {

/// What the contracts say of a [`Unit`]: its four fields as plain text.
pub struct UnitView {
    pub dir_tag: Seq<char>,
    pub name: Seq<char>,
    pub ext: Seq<char>,
    pub url: Option<Seq<char>>,
}

/// Information about a single post that needs downloading.
#[derive(Debug, Clone, PartialEq, Eq)]
pub struct Unit {
    pub dir_tag: String,
    pub name: String,
    pub ext: String,
    pub url: Option<String>,
}

/// The text of an optional string.
pub open spec fn opt_text(s: Option<String>) -> Option<Seq<char>> {
    match s {
        Some(t) => Some(t@),
        None => None,
    }
}

impl View for Unit {
    type V = UnitView;

    open spec fn view(&self) -> UnitView {
        UnitView {
            dir_tag: self.dir_tag@,
            name: self.name@,
            ext: self.ext@,
            url: opt_text(self.url),
        }
    }
}

/// The views of a sequence of units, in the same order.
pub open spec fn unit_views(units: Seq<Unit>) -> Seq<UnitView> {
    Seq::new(units.len(), |i: int| units[i]@)
}

impl UnitView {
    /// Name of the file that the unit is stored in: name, a dot, extension.
    pub open spec fn file_name(self) -> Seq<char> {
        self.name + seq!['.'] + self.ext
    }
}

impl Unit {
    /// Name of the file that the unit is stored in, inside its directory.
    pub fn file_name(&self) -> (r: String)
        ensures
            r@ == self@.file_name(),
    {
        proof {
            reveal_strlit(".");
        }
        let mut r = self.name.clone();
        r.append(".");
        r.append(self.ext.as_str());
        assert(r@ =~= self@.file_name());
        r
    }
}

/// The tag name and the queue holding all the posts found for that tag.
#[derive(Debug, Clone, PartialEq, Eq)]
pub struct Container {
    pub tag_name: String,
    pub queue: VecDeque<Unit>,
}

/// What the contracts say of a [`Container`].
pub struct ContainerView {
    pub tag_name: Seq<char>,
    pub units: Seq<UnitView>,
}

impl View for Container {
    type V = ContainerView;

    open spec fn view(&self) -> ContainerView {
        ContainerView { tag_name: self.tag_name@, units: unit_views(self.queue@) }
    }
}

/// Configuration that is passed around.
#[derive(Debug, Clone, PartialEq, Eq)]
pub struct Config {
    pub sfw: bool,
    pub verbose: bool,
    pub directory: Option<String>,
}

impl Config {
    pub fn new(sfw: bool, verbose: bool, directory: Option<String>) -> (c: Config)
        ensures
            c.sfw == sfw,
            c.verbose == verbose,
            c.directory == directory,
    {
        Config { sfw, verbose, directory }
    }
}

} // verus!
