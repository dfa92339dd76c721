//! One tagged error type for the whole pipeline.
//!
//! Every stage reports a kind from the taxonomy below together with a detail
//! (the offending field, component name or extension).  Callers wrap an error
//! with a description of the operation that was under way, so a failure
//! carries its causal chain from the innermost cause outwards; the pipeline
//! never recovers locally.

use vstd::prelude::*;

verus! {

/// The error taxonomy of the pipeline.
#[derive(Clone, Copy, PartialEq, Eq, Debug, Structural)]
pub enum ErrorKind {
    /// Malformed input text: the source does not conform to the schema.
    Structure,
    /// A named component cannot be resolved against the search locations.
    NotFound,
    /// Structurally valid input that is inconsistent with the model.
    Semantic,
    /// An unsupported or unspecified format extension.
    Configuration,
}

/// Mathematical model of an [`Error`].
#[verifier::ext_equal]
pub struct ErrorV {
    pub kind: ErrorKind,
    pub detail: Seq<char>,
    pub searched: Seq<Seq<char>>,
    pub chain: Seq<Seq<char>>,
}

/// A pipeline error: a kind, the offending name or field, the search list
/// attempted (for resolution failures), and the chain of operation
/// descriptions added while the error travelled outwards.
#[derive(Debug)]
pub struct Error {
    pub kind: ErrorKind,
    pub detail: String,
    pub searched: Vec<String>,
    pub chain: Vec<String>,
}

impl View for Error {
    type V = ErrorV;

    open spec fn view(&self) -> ErrorV {
        ErrorV {
            kind: self.kind,
            detail: self.detail@,
            searched: self.searched.deep_view(),
            chain: self.chain.deep_view(),
        }
    }
}

/// A fresh error of the given kind with no search list and no chain yet.
pub open spec fn err_v(kind: ErrorKind, detail: Seq<char>) -> ErrorV {
    ErrorV { kind, detail, searched: Seq::empty(), chain: Seq::empty() }
}

/// The same error, wrapped with one more operation description.
pub open spec fn with_ctx(e: ErrorV, msg: Seq<char>) -> ErrorV {
    ErrorV { chain: e.chain.push(msg), ..e }
}

impl Error {
    /// A malformed-input error naming the offending field.
    pub fn structure(detail: String) -> (r: Error)
        ensures
            r@ == err_v(ErrorKind::Structure, detail@),
    {
        let e = Error { kind: ErrorKind::Structure, detail, searched: Vec::new(), chain: Vec::new() };
        proof {
            assert(e@ =~= err_v(ErrorKind::Structure, e.detail@));
        }
        e
    }

    /// A resolution failure carrying the attempted name and the full,
    /// ordered search list.
    pub fn not_found(name: String, searched: Vec<String>) -> (r: Error)
        ensures
            r@.kind == ErrorKind::NotFound,
            r@.detail == name@,
            r@.searched == searched.deep_view(),
            r@.chain == Seq::<Seq<char>>::empty(),
    {
        let e = Error { kind: ErrorKind::NotFound, detail: name, searched, chain: Vec::new() };
        proof {
            assert(e@.chain =~= Seq::<Seq<char>>::empty());
        }
        e
    }

    /// A semantic inconsistency naming the offending reference.
    pub fn semantic(detail: String) -> (r: Error)
        ensures
            r@ == err_v(ErrorKind::Semantic, detail@),
    {
        let e = Error { kind: ErrorKind::Semantic, detail, searched: Vec::new(), chain: Vec::new() };
        proof {
            assert(e@ =~= err_v(ErrorKind::Semantic, e.detail@));
        }
        e
    }

    /// An unsupported format extension.
    pub fn configuration(extension: String) -> (r: Error)
        ensures
            r@ == err_v(ErrorKind::Configuration, extension@),
    {
        let e = Error {
            kind: ErrorKind::Configuration,
            detail: extension,
            searched: Vec::new(),
            chain: Vec::new(),
        };
        proof {
            assert(e@ =~= err_v(ErrorKind::Configuration, e.detail@));
        }
        e
    }

    /// Wraps the error with a description of the operation that failed.
    /// The kind, detail and search list are untouched; the chain grows by
    /// one entry, innermost first.
    pub fn context(self, msg: String) -> (r: Error)
        ensures
            r@ == with_ctx(self@, msg@),
    {
        let ghost before = self@;
        let Error { kind, detail, searched, mut chain } = self;
        chain.push(msg);
        let e = Error { kind, detail, searched, chain };
        proof {
            assert(e@.chain =~= with_ctx(before, msg@).chain);
            assert(e@ =~= with_ctx(before, msg@));
        }
        e
    }
}

} // verus!
