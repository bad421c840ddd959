//! What can go wrong while modules are loaded and reloaded.

use vstd::prelude::*;
use vstd::string::to_string_from_display_ensures;

verus! {

/// `std::io::Error`, as staging a copy of an artifact reports it.
#[verifier::external_type_specification]
#[verifier::external_body]
pub struct ExIoError(std::io::Error);

/// `libloading::Error`, as opening an image or resolving its entry point
/// reports it.
#[verifier::external_type_specification]
#[verifier::external_body]
pub struct ExLibraryError(libloading::Error);

/// The errors of the registry.
#[derive(Debug)]
pub enum ModuleError {
    /// The artifact could not be staged.
    Io(std::io::Error),
    /// The image could not be opened, or it lacks the entry point.
    Library(libloading::Error),
    /// No module of this name is registered.
    ModuleNotFound(String),
    /// The reloaded artifact reports another name than the one asked for.
    NameMismatch { expected: String, actual: String },
    /// The module is built in: there is nothing to reload it from.
    NoReload(String),
}

/// A `ModuleError` with its names as sequences of characters.
pub enum ModuleErrorView {
    Io(std::io::Error),
    Library(libloading::Error),
    ModuleNotFound(Seq<char>),
    NameMismatch { expected: Seq<char>, actual: Seq<char> },
    NoReload(Seq<char>),
}

impl View for ModuleError {
    type V = ModuleErrorView;

    open spec fn view(&self) -> ModuleErrorView {
        match *self {
            ModuleError::Io(e) => ModuleErrorView::Io(e),
            ModuleError::Library(e) => ModuleErrorView::Library(e),
            ModuleError::ModuleNotFound(name) => ModuleErrorView::ModuleNotFound(name@),
            ModuleError::NameMismatch { expected, actual } => ModuleErrorView::NameMismatch {
                expected: expected@,
                actual: actual@,
            },
            ModuleError::NoReload(name) => ModuleErrorView::NoReload(name@),
        }
    }
}

/// The outcome of a registry operation, with names and errors by their views.
pub open spec fn outcome_view(r: Result<String, ModuleError>) -> Result<
    Seq<char>,
    ModuleErrorView,
> {
    match r {
        Ok(name) => Ok(name@),
        Err(e) => Err(e@),
    }
}

impl ModuleErrorView {
    /// The text of an error that the registry raises itself. The text of an
    /// I/O or library error is whatever that error prints.
    pub open spec fn text(self) -> Seq<char>
        recommends
            !(self is Io),
            !(self is Library),
    {
        match self {
            ModuleErrorView::ModuleNotFound(name) => "Module '"@ + name + "' not found"@,
            ModuleErrorView::NameMismatch { expected, actual } => {
                "Module name mismatch: expected '"@ + expected + "', got '"@ + actual
            },
            ModuleErrorView::NoReload(name) => {
                "Module '"@ + name + "' is not dynamic and can not be reloaded"@
            },
            _ => Seq::empty(),
        }
    }
}

impl ModuleError {
    /// The error as a line of text: for an I/O or library error what that
    /// error displays, for the others the registry's own wording.
    pub fn message(&self) -> (text: String)
        ensures
            match *self {
                ModuleError::Io(e) => to_string_from_display_ensures::<std::io::Error>(&e, text),
                ModuleError::Library(e) => to_string_from_display_ensures::<libloading::Error>(
                    &e,
                    text,
                ),
                _ => text@ == self@.text(),
            },
    {
        match self {
            ModuleError::Io(e) => e.to_string(),
            ModuleError::Library(e) => e.to_string(),
            ModuleError::ModuleNotFound(name) => {
                let mut text = String::from_str("Module '");
                text.append(name.as_str());
                text.append("' not found");
                text
            },
            ModuleError::NameMismatch { expected, actual } => {
                let mut text = String::from_str("Module name mismatch: expected '");
                text.append(expected.as_str());
                text.append("', got '");
                text.append(actual.as_str());
                text
            },
            ModuleError::NoReload(name) => {
                let mut text = String::from_str("Module '");
                text.append(name.as_str());
                text.append("' is not dynamic and can not be reloaded");
                text
            },
        }
    }
}

} // verus!
