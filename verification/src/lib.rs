//! Template rendering and schema validation for protocol test scenarios.
//!
//! Scenario payloads are written in CBOR diagnostic notation with embedded
//! directives (`%%` for a literal percent sign, `%(...)` for a generator).
//! A template is parsed once, then rendered any number of times against a
//! seeded random source and a single-assignment variable environment; the
//! rendered text is compiled to binary CBOR and may be checked against a
//! named rule of a CDDL schema document.

use vstd::prelude::*;

pub mod params;
pub mod rng;
pub mod steps;
pub mod text;
pub mod world;

verus! {

/// Errors raised by parsing, compiling, rendering, the variable
/// environment, and schema validation. Every failure is surfaced as a
/// value; no component aborts the process.
#[derive(Debug, Clone, PartialEq, Eq)]
pub enum ScenarioError {
    /// A malformed directive: a percent sign not starting `%%` or a
    /// well-parenthesized `%(...)`. Carries the character index of the
    /// offending percent sign.
    Syntax { at: usize },
    /// A directive named a generator kind that does not exist.
    UnknownGenerator { name: String },
    /// A directive's parameters were malformed (bad number, empty name,
    /// inverted range).
    BadParameter { input: String },
    /// A directive referenced a variable absent from the environment.
    MissingVariable { name: String },
    /// A directive referenced a variable with no textual form (a recorded
    /// response).
    CannotRender { name: String },
    /// Recursive template expansion exceeded the depth bound.
    DepthExceeded,
    /// The rendered text was not valid diagnostic notation.
    Notation { message: String },
    /// A name was inserted twice into the variable environment.
    DuplicateName { name: String },
    /// A variable was absent or bound to an unexpected kind.
    WrongKind { name: String },
    /// The requested rule does not appear in the schema document.
    UnknownRule { name: String },
    /// The schema document defines a rule whose name the synthetic root
    /// reserves.
    ReservedRule { name: String },
    /// A recorded response was an error reply, so it carries no payload;
    /// the peer's error code is attached.
    ErrorResponse { name: String, code: u64 },
    /// The schema document itself could not be parsed.
    BadSchema,
    /// The schema engine rejected the payload (or failed); carries the
    /// engine's diagnostic.
    SchemaRejected { message: String },
}

/// The mathematical value of a `ScenarioError`, with text as character
/// sequences.
pub enum ErrView {
    Syntax { at: nat },
    UnknownGenerator { name: Seq<char> },
    BadParameter { input: Seq<char> },
    MissingVariable { name: Seq<char> },
    CannotRender { name: Seq<char> },
    DepthExceeded,
    Notation { message: Seq<char> },
    DuplicateName { name: Seq<char> },
    WrongKind { name: Seq<char> },
    UnknownRule { name: Seq<char> },
    ReservedRule { name: Seq<char> },
    ErrorResponse { name: Seq<char>, code: u64 },
    BadSchema,
    SchemaRejected { message: Seq<char> },
}

impl View for ScenarioError {
    type V = ErrView;

    open spec fn view(&self) -> ErrView {
        match self {
            ScenarioError::Syntax { at } => ErrView::Syntax { at: *at as nat },
            ScenarioError::UnknownGenerator { name } => ErrView::UnknownGenerator { name: name@ },
            ScenarioError::BadParameter { input } => ErrView::BadParameter { input: input@ },
            ScenarioError::MissingVariable { name } => ErrView::MissingVariable { name: name@ },
            ScenarioError::CannotRender { name } => ErrView::CannotRender { name: name@ },
            ScenarioError::DepthExceeded => ErrView::DepthExceeded,
            ScenarioError::Notation { message } => ErrView::Notation { message: message@ },
            ScenarioError::DuplicateName { name } => ErrView::DuplicateName { name: name@ },
            ScenarioError::WrongKind { name } => ErrView::WrongKind { name: name@ },
            ScenarioError::UnknownRule { name } => ErrView::UnknownRule { name: name@ },
            ScenarioError::ReservedRule { name } => ErrView::ReservedRule { name: name@ },
            ScenarioError::ErrorResponse { name, code } => ErrView::ErrorResponse {
                name: name@,
                code: *code,
            },
            ScenarioError::BadSchema => ErrView::BadSchema,
            ScenarioError::SchemaRejected { message } => ErrView::SchemaRejected {
                message: message@,
            },
        }
    }
}

} // verus!
