//! The error of registering a font in the process-wide registry.

use super::engine::FontError;
use vstd::prelude::*;
use vstd::string::StringExecFns;

verus! {

/// Why a font could not be registered.
#[derive(Debug, Clone)]
pub enum InvalidFontReason {
    /// The font bytes could not be parsed.
    Parse(FontError),
    /// The registry could not be locked; the lock error's message.
    RegistryLock(String),
}

/// Error returned when legacy font registration receives invalid font bytes.
#[derive(Debug, Clone)]
pub struct InvalidFont {
    reason: InvalidFontReason,
}

impl InvalidFont {
    /// Why the font could not be registered.
    pub closed spec fn spec_reason(&self) -> InvalidFontReason {
        self.reason
    }

    /// The error of a font whose bytes could not be parsed.
    pub fn parse(err: FontError) -> (r: Self)
        ensures
            r.spec_reason() == InvalidFontReason::Parse(err),
    {
        InvalidFont { reason: InvalidFontReason::Parse(err) }
    }

    /// The error of a registry that could not be locked, with the message of
    /// the lock error.
    pub fn registry_lock(err: String) -> (r: Self)
        ensures
            r.spec_reason() == InvalidFontReason::RegistryLock(err),
    {
        InvalidFont { reason: InvalidFontReason::RegistryLock(err) }
    }

    /// The message that describes the error.
    pub open spec fn spec_message(&self) -> Seq<char> {
        match self.spec_reason() {
            InvalidFontReason::Parse(err) => "failed to register font: "@ + err.spec_message(),
            InvalidFontReason::RegistryLock(err) => "failed to lock registered font registry: "@
                + err@,
        }
    }

    /// The message that describes the error.
    pub fn message(&self) -> (r: String)
        ensures
            r@ == self.spec_message(),
    {
        match &self.reason {
            InvalidFontReason::Parse(err) => "failed to register font: ".to_owned().concat(
                err.message().as_str(),
            ),
            InvalidFontReason::RegistryLock(err) =>
                "failed to lock registered font registry: ".to_owned().concat(err.as_str()),
        }
    }

    /// The font error that caused this one, if any.
    pub fn source(&self) -> (r: Option<&FontError>)
        ensures
            match self.spec_reason() {
                InvalidFontReason::Parse(err) => r == Some(&err),
                InvalidFontReason::RegistryLock(_) => r is None,
            },
    {
        match &self.reason {
            InvalidFontReason::Parse(err) => Some(err),
            InvalidFontReason::RegistryLock(_) => None,
        }
    }
}

} // verus!
