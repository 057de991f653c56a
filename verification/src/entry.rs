//! The entries of a template tree.
//!
//! Whoever walks a template tree reports each node it meets with its path
//! below the tree's root and with what the file system says it is. The node
//! becomes an entry of one of three kinds, or is passed over: the root itself
//! and nodes that are neither directory nor regular file are no entries.

use crate::paths::{is_template, is_template_path};
use vstd::prelude::*;
use vstd::string::StringExecFns;

verus! {

/// What an entry of a template tree is.
#[derive(Clone, Copy, Debug, PartialEq, Eq, Structural)]
pub enum EntryKind {
    /// A directory, to be created in every scenario.
    Directory,
    /// A file whose name ends in the template suffix, to be rendered for
    /// every scenario.
    TemplatedFile,
    /// Any other regular file, to be copied into every scenario.
    PlainFile,
}

/// One node of a template tree.
#[derive(Debug, PartialEq, Eq)]
pub struct TemplateEntry {
    path: String,
    relative_path: String,
    kind: EntryKind,
    source: String,
}

/// The mathematical content of a [`TemplateEntry`].
pub struct TemplateEntryView {
    /// Where the node is found.
    pub path: Seq<char>,
    /// Its path below the root of the template tree.
    pub relative_path: Seq<char>,
    pub kind: EntryKind,
    /// The text of a templated file; empty until it is supplied.
    pub source: Seq<char>,
}

/// The kind of the node at `relative_path`, or `None` if it is no entry.
pub open spec fn classified(relative_path: Seq<char>, is_dir: bool, is_file: bool) -> Option<
    EntryKind,
> {
    if relative_path.len() == 0 {
        None
    } else if is_dir {
        Some(EntryKind::Directory)
    } else if is_file {
        if is_template_path(relative_path) {
            Some(EntryKind::TemplatedFile)
        } else {
            Some(EntryKind::PlainFile)
        }
    } else {
        None
    }
}

impl View for TemplateEntry {
    type V = TemplateEntryView;

    closed spec fn view(&self) -> TemplateEntryView {
        TemplateEntryView {
            path: self.path@,
            relative_path: self.relative_path@,
            kind: self.kind,
            source: self.source@,
        }
    }
}

impl DeepView for TemplateEntry {
    type V = TemplateEntryView;

    open spec fn deep_view(&self) -> TemplateEntryView {
        self@
    }
}

impl TemplateEntry {
    /// The entry for the node found at `path`, which lies at `relative_path`
    /// below the root of the template tree, or `None` if the node is no
    /// entry. A templated file has no text yet.
    pub fn new(path: &str, relative_path: &str, is_dir: bool, is_file: bool) -> (entry: Option<
        TemplateEntry,
    >)
        ensures
            match classified(relative_path@, is_dir, is_file) {
                Some(kind) => entry.is_some() && entry.unwrap()@ == (TemplateEntryView {
                    path: path@,
                    relative_path: relative_path@,
                    kind,
                    source: Seq::empty(),
                }),
                None => entry.is_none(),
            },
    {
        if relative_path.unicode_len() == 0 {
            return None;
        }
        let kind = if is_dir {
            EntryKind::Directory
        } else if is_file {
            if is_template(relative_path) {
                EntryKind::TemplatedFile
            } else {
                EntryKind::PlainFile
            }
        } else {
            return None;
        };
        Some(
            TemplateEntry {
                path: String::from_str(path),
                relative_path: String::from_str(relative_path),
                kind,
                source: String::new(),
            },
        )
    }

    /// The same entry with `source` as the text of the file.
    pub fn with_source(self, source: String) -> (entry: TemplateEntry)
        ensures
            entry@ == (TemplateEntryView { source: source@, ..self@ }),
    {
        TemplateEntry {
            path: self.path,
            relative_path: self.relative_path,
            kind: self.kind,
            source,
        }
    }

    /// Where the node is found.
    pub fn path(&self) -> (path: &str)
        ensures
            path@ == self@.path,
    {
        self.path.as_str()
    }

    /// The path of the node below the root of the template tree.
    pub fn relative_path(&self) -> (path: &str)
        ensures
            path@ == self@.relative_path,
    {
        self.relative_path.as_str()
    }

    /// What the entry is.
    pub fn kind(&self) -> (kind: EntryKind)
        ensures
            kind == self@.kind,
    {
        self.kind
    }

    /// The text of the file, as far as it was supplied.
    pub fn source(&self) -> (source: &str)
        ensures
            source@ == self@.source,
    {
        self.source.as_str()
    }
}

} // verus!
