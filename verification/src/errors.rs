//! The error taxonomy shared by every operation of the pipeline.
//!
//! Validation errors reject bad input before any side effect; AI errors mark a
//! failed capability call (recoverable per chunk during ingestion, fatal for a
//! reasoning batch); database errors mark an unreachable system of record and
//! always abort the enclosing operation; parse errors mark a structured
//! response that could not be decoded.

use vstd::prelude::*;

verus! {

/// What went wrong, with a human-readable description.
#[derive(Debug)]
pub enum AppError {
    ValidationError(String),
    AIError(String),
    DatabaseError(String),
    ParseError(String),
}

/// The mathematical shape of an error: its kind and its description.
pub enum ErrorView {
    Validation(Seq<char>),
    Ai(Seq<char>),
    Database(Seq<char>),
    Parse(Seq<char>),
}

impl View for AppError {
    type V = ErrorView;

    open spec fn view(&self) -> ErrorView {
        match self {
            AppError::ValidationError(m) => ErrorView::Validation(m@),
            AppError::AIError(m) => ErrorView::Ai(m@),
            AppError::DatabaseError(m) => ErrorView::Database(m@),
            AppError::ParseError(m) => ErrorView::Parse(m@),
        }
    }
}

/// The labelled one-line rendering of an error.
pub open spec fn spec_message(e: ErrorView) -> Seq<char> {
    match e {
        ErrorView::Validation(m) => "Validation Error: "@ + m,
        ErrorView::Ai(m) => "AI Service Error: "@ + m,
        ErrorView::Database(m) => "Database Error: "@ + m,
        ErrorView::Parse(m) => "Parse Error: "@ + m,
    }
}

impl AppError {
    /// During ingestion only a repository failure aborts the document; AI and
    /// parse failures are skippable per chunk.
    pub open spec fn is_fatal_for_ingestion(&self) -> bool {
        self@ is Database
    }

    /// The labelled description of the error, for logs and progress lines.
    pub fn message(&self) -> (r: String)
        ensures
            r@ == spec_message(self@),
    {
        let mut out = String::new();
        match self {
            AppError::ValidationError(m) => {
                out.append("Validation Error: ");
                out.append(m.as_str());
            },
            AppError::AIError(m) => {
                out.append("AI Service Error: ");
                out.append(m.as_str());
            },
            AppError::DatabaseError(m) => {
                out.append("Database Error: ");
                out.append(m.as_str());
            },
            AppError::ParseError(m) => {
                out.append("Parse Error: ");
                out.append(m.as_str());
            },
        }
        out
    }
}

} // verus!
