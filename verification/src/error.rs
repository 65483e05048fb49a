//! Errors met while filling templates.
use vstd::prelude::*;

use crate::text::owned;

verus! {

/// Declares `std::io::Error`, carried by the error of a template file that could not be
/// read; its contents are not visible to the proofs.
#[verifier::external_type_specification]
#[verifier::external_body]
pub struct ExIoError(std::io::Error);

/// What can go wrong while reading configuration files or filling a template line.
#[derive(Debug)]
pub enum ConfigError {
    FileRead(std::io::Error),
    UnexpectedCurlyBrace,
    UnknownVariable(String),
    UnknownRgb(String),
}

/// The mathematical value of a [`ConfigError`]: the variant and its text.
pub enum ConfigErrorView {
    FileRead,
    UnexpectedCurlyBrace,
    UnknownVariable(Seq<char>),
    UnknownRgb(Seq<char>),
}

impl View for ConfigError {
    type V = ConfigErrorView;

    open spec fn view(&self) -> ConfigErrorView {
        match self {
            ConfigError::FileRead(_) => ConfigErrorView::FileRead,
            ConfigError::UnexpectedCurlyBrace => ConfigErrorView::UnexpectedCurlyBrace,
            ConfigError::UnknownVariable(s) => ConfigErrorView::UnknownVariable(s@),
            ConfigError::UnknownRgb(s) => ConfigErrorView::UnknownRgb(s@),
        }
    }
}

/// The text std's `Display` gives an I/O error.
///
/// Nothing is claimed of the text: it comes from the operating system's error table.
#[verifier::external_body]
fn io_error_text(e: &std::io::Error) -> String {
    format!("{}", e)
}

impl ConfigError {
    /// The human-readable message of the error.
    pub fn message(&self) -> (r: String)
        ensures
            match self@ {
                ConfigErrorView::FileRead => exists|t: Seq<char>| r@ == "Failed to read file: "@ + t,
                ConfigErrorView::UnexpectedCurlyBrace => r@ == "Unexpected curly brace found."@,
                ConfigErrorView::UnknownVariable(v) => r@ == "Unknown variable: "@ + v,
                ConfigErrorView::UnknownRgb(v) => r@ == "Unknown RGB Value: "@ + v,
            },
    {
        match self {
            ConfigError::FileRead(e) => {
                let mut r = owned("Failed to read file: ");
                let t = io_error_text(e);
                r.append(t.as_str());
                assert(r@ == "Failed to read file: "@ + t@);
                r
            },
            ConfigError::UnexpectedCurlyBrace => owned("Unexpected curly brace found."),
            ConfigError::UnknownVariable(v) => {
                let mut r = owned("Unknown variable: ");
                r.append(v.as_str());
                r
            },
            ConfigError::UnknownRgb(v) => {
                let mut r = owned("Unknown RGB Value: ");
                r.append(v.as_str());
                r
            },
        }
    }
}

} // verus!
