use vstd::prelude::*;

verus! {

/// What a diagnostic reports. Ordering violations carry the two names the
/// message speaks of; the host toolchain renders the words around them.
#[derive(Debug, PartialEq)]
pub enum DiagKind {
    /// The annotated item has the wrong shape (not a structure with named
    /// fields, or not an enum).
    WrongItemShape,
    /// A per-field annotation does not follow the `each = "<name>"` grammar.
    MalformedAnnotation,
    /// An `each`-annotated field whose declared type is not a one-argument
    /// ordered-sequence type.
    NotSequenceField,
    /// The expansion request does not follow the
    /// `ident in start..end { body }` grammar.
    MalformedGrammar,
    /// `offender` is declared after `before` but sorts before it.
    OutOfOrder { offender: Vec<char>, before: Vec<char> },
    /// A match arm pattern shape the checker cannot classify.
    UnsupportedPattern,
}

/// A recovered failure: a report and the span id of the offending token.
#[derive(Debug, PartialEq)]
pub struct Diagnostic {
    pub span: u32,
    pub kind: DiagKind,
}

/// The mathematical value of a diagnostic kind.
#[verifier::ext_equal]
pub enum DiagKindV {
    WrongItemShape,
    MalformedAnnotation,
    NotSequenceField,
    MalformedGrammar,
    OutOfOrder { offender: Seq<char>, before: Seq<char> },
    UnsupportedPattern,
}

/// The mathematical value of a diagnostic.
#[verifier::ext_equal]
pub struct DiagV {
    pub span: u32,
    pub kind: DiagKindV,
}

pub open spec fn diag_view(d: Diagnostic) -> DiagV {
    DiagV {
        span: d.span,
        kind: match d.kind {
            DiagKind::WrongItemShape => DiagKindV::WrongItemShape,
            DiagKind::MalformedAnnotation => DiagKindV::MalformedAnnotation,
            DiagKind::NotSequenceField => DiagKindV::NotSequenceField,
            DiagKind::MalformedGrammar => DiagKindV::MalformedGrammar,
            DiagKind::OutOfOrder { offender, before } => DiagKindV::OutOfOrder {
                offender: offender@,
                before: before@,
            },
            DiagKind::UnsupportedPattern => DiagKindV::UnsupportedPattern,
        },
    }
}

/// The values of a list of diagnostics, index by index.
pub open spec fn diags_view(s: Seq<Diagnostic>) -> Seq<DiagV> {
    Seq::new(s.len(), |i: int| diag_view(s[i]))
}

/// `diags_view` distributes over concatenation.
pub proof fn lemma_diags_view_concat(a: Seq<Diagnostic>, b: Seq<Diagnostic>)
    ensures
        diags_view(a + b) == diags_view(a) + diags_view(b),
{
    assert(diags_view(a + b) =~= diags_view(a) + diags_view(b));
}

} // verus!
