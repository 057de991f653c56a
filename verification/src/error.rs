//! What can go wrong while a definition is expanded and materialized.

use vstd::prelude::*;
use vstd::string::StringExecFns;

verus! {

/// The stage of a run to which a failure belongs.
#[derive(Clone, Copy, Debug, PartialEq, Eq, Structural)]
pub enum ErrorKind {
    /// The definition is malformed or inconsistent.
    Configuration,
    /// The file system refused an operation, or the output location is taken.
    Io,
    /// A template could not be parsed or rendered.
    TemplateRender,
    /// A template tree could not be read.
    TemplateWalk,
}

/// A failure of a run. Every failure is fatal: nothing is retried.
#[derive(Debug, PartialEq, Eq)]
pub enum GenerationError {
    /// Two dimensions of the definition share this name.
    DuplicateDimension { name: String },
    /// The dimension of this name has no value.
    EmptyDimension { name: String },
    /// The test selects a dimension that the definition does not declare.
    UnknownDimension { test: String, dimension: String },
    /// The file system refused the operation on this path.
    Io { path: String, cause: String },
    /// The file system refused to copy the file at `from` to `to`.
    CopyFile { from: String, to: String, cause: String },
    /// Something exists already where this path was to be created.
    OutputConflict { path: String },
    /// The template could not be parsed (no scenario) or could not be
    /// rendered for the scenario.
    TemplateRender { template: String, scenario: Option<String>, cause: String },
    /// The template tree could not be read at this path.
    TemplateWalk { path: String, cause: String },
    /// The walk of a template tree came upon the templated file at this path
    /// more than once.
    RepeatedTemplate { path: String },
}

/// The mathematical content of a [`GenerationError`].
pub enum GenerationErrorView {
    DuplicateDimension { name: Seq<char> },
    EmptyDimension { name: Seq<char> },
    UnknownDimension { test: Seq<char>, dimension: Seq<char> },
    Io { path: Seq<char>, cause: Seq<char> },
    CopyFile { from: Seq<char>, to: Seq<char>, cause: Seq<char> },
    OutputConflict { path: Seq<char> },
    TemplateRender { template: Seq<char>, scenario: Option<Seq<char>>, cause: Seq<char> },
    TemplateWalk { path: Seq<char>, cause: Seq<char> },
    RepeatedTemplate { path: Seq<char> },
}

impl GenerationErrorView {
    /// The stage to which the failure belongs.
    pub open spec fn kind(self) -> ErrorKind {
        match self {
            GenerationErrorView::DuplicateDimension { .. } => ErrorKind::Configuration,
            GenerationErrorView::EmptyDimension { .. } => ErrorKind::Configuration,
            GenerationErrorView::UnknownDimension { .. } => ErrorKind::Configuration,
            GenerationErrorView::Io { .. } => ErrorKind::Io,
            GenerationErrorView::CopyFile { .. } => ErrorKind::Io,
            GenerationErrorView::OutputConflict { .. } => ErrorKind::Io,
            GenerationErrorView::TemplateRender { .. } => ErrorKind::TemplateRender,
            GenerationErrorView::TemplateWalk { .. } => ErrorKind::TemplateWalk,
            GenerationErrorView::RepeatedTemplate { .. } => ErrorKind::TemplateWalk,
        }
    }
}

impl GenerationErrorView {
    /// The failure in one line: the stage, what was being worked on, and why
    /// it failed.
    pub open spec fn message(self) -> Seq<char> {
        match self {
            GenerationErrorView::DuplicateDimension { name } => "configuration: dimension '"@ + name
                + "' is declared twice"@,
            GenerationErrorView::EmptyDimension { name } => "configuration: dimension '"@ + name
                + "' has no values"@,
            GenerationErrorView::UnknownDimension { test, dimension } => "configuration: test '"@
                + test + "' selects the unknown dimension '"@ + dimension + "'"@,
            GenerationErrorView::Io { path, cause } => "file system: "@ + path + ": "@ + cause,
            GenerationErrorView::CopyFile { from, to, cause } => "file system: copying "@ + from
                + " to "@ + to + ": "@ + cause,
            GenerationErrorView::OutputConflict { path } => "file system: "@ + path
                + " exists already"@,
            GenerationErrorView::TemplateRender { template, scenario, cause } => match scenario {
                Some(name) => "render: template '"@ + template + "' for scenario '"@ + name
                    + "': "@ + cause,
                None => "render: template '"@ + template + "': "@ + cause,
            },
            GenerationErrorView::TemplateWalk { path, cause } => "walk: "@ + path + ": "@ + cause,
            GenerationErrorView::RepeatedTemplate { path } => "walk: "@ + path
                + " was found more than once"@,
        }
    }
}

impl View for GenerationError {
    type V = GenerationErrorView;

    open spec fn view(&self) -> GenerationErrorView {
        match self {
            GenerationError::DuplicateDimension { name } => {
                GenerationErrorView::DuplicateDimension { name: name@ }
            },
            GenerationError::EmptyDimension { name } => GenerationErrorView::EmptyDimension {
                name: name@,
            },
            GenerationError::UnknownDimension { test, dimension } => {
                GenerationErrorView::UnknownDimension { test: test@, dimension: dimension@ }
            },
            GenerationError::Io { path, cause } => GenerationErrorView::Io {
                path: path@,
                cause: cause@,
            },
            GenerationError::CopyFile { from, to, cause } => GenerationErrorView::CopyFile {
                from: from@,
                to: to@,
                cause: cause@,
            },
            GenerationError::OutputConflict { path } => GenerationErrorView::OutputConflict {
                path: path@,
            },
            GenerationError::TemplateRender { template, scenario, cause } => {
                GenerationErrorView::TemplateRender {
                    template: template@,
                    scenario: match scenario {
                        Some(name) => Some(name@),
                        None => None,
                    },
                    cause: cause@,
                }
            },
            GenerationError::TemplateWalk { path, cause } => GenerationErrorView::TemplateWalk {
                path: path@,
                cause: cause@,
            },
            GenerationError::RepeatedTemplate { path } => GenerationErrorView::RepeatedTemplate {
                path: path@,
            },
        }
    }
}

impl GenerationError {
    /// The failure in one line: the stage, what was being worked on, and why
    /// it failed.
    pub fn message(&self) -> (text: String)
        ensures
            text@ == self@.message(),
    {
        match self {
            GenerationError::DuplicateDimension { name } => {
                let mut text = String::from_str("configuration: dimension '");
                text.append(name.as_str());
                text.append("' is declared twice");
                text
            },
            GenerationError::EmptyDimension { name } => {
                let mut text = String::from_str("configuration: dimension '");
                text.append(name.as_str());
                text.append("' has no values");
                text
            },
            GenerationError::UnknownDimension { test, dimension } => {
                let mut text = String::from_str("configuration: test '");
                text.append(test.as_str());
                text.append("' selects the unknown dimension '");
                text.append(dimension.as_str());
                text.append("'");
                text
            },
            GenerationError::Io { path, cause } => {
                let mut text = String::from_str("file system: ");
                text.append(path.as_str());
                text.append(": ");
                text.append(cause.as_str());
                text
            },
            GenerationError::CopyFile { from, to, cause } => {
                let mut text = String::from_str("file system: copying ");
                text.append(from.as_str());
                text.append(" to ");
                text.append(to.as_str());
                text.append(": ");
                text.append(cause.as_str());
                text
            },
            GenerationError::OutputConflict { path } => {
                let mut text = String::from_str("file system: ");
                text.append(path.as_str());
                text.append(" exists already");
                text
            },
            GenerationError::TemplateRender { template, scenario, cause } => {
                let mut text = String::from_str("render: template '");
                text.append(template.as_str());
                match scenario {
                    Some(name) => {
                        text.append("' for scenario '");
                        text.append(name.as_str());
                    },
                    None => {},
                }
                text.append("': ");
                text.append(cause.as_str());
                text
            },
            GenerationError::TemplateWalk { path, cause } => {
                let mut text = String::from_str("walk: ");
                text.append(path.as_str());
                text.append(": ");
                text.append(cause.as_str());
                text
            },
            GenerationError::RepeatedTemplate { path } => {
                let mut text = String::from_str("walk: ");
                text.append(path.as_str());
                text.append(" was found more than once");
                text
            },
        }
    }

    /// The stage to which the failure belongs.
    pub fn kind(&self) -> (kind: ErrorKind)
        ensures
            kind == self@.kind(),
    {
        match self {
            GenerationError::DuplicateDimension { .. } => ErrorKind::Configuration,
            GenerationError::EmptyDimension { .. } => ErrorKind::Configuration,
            GenerationError::UnknownDimension { .. } => ErrorKind::Configuration,
            GenerationError::Io { .. } => ErrorKind::Io,
            GenerationError::CopyFile { .. } => ErrorKind::Io,
            GenerationError::OutputConflict { .. } => ErrorKind::Io,
            GenerationError::TemplateRender { .. } => ErrorKind::TemplateRender,
            GenerationError::TemplateWalk { .. } => ErrorKind::TemplateWalk,
            GenerationError::RepeatedTemplate { .. } => ErrorKind::TemplateWalk,
        }
    }
}

} // verus!
