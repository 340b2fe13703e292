use vstd::prelude::*;

verus! {

/// The kind of a decode failure: the innermost cause, without the trail of
/// enclosing field names.
#[derive(Debug, Clone)]
pub enum PacketRsErrorKind {
    /// The stream ran out of bits during a read.
    Exhausted,
    /// A field with a declared fixed value decoded to something else.
    FixedMismatch { expected: u64, actual: u64 },
    /// A field's declared validity predicate rejected the decoded value;
    /// `predicate` carries the predicate's source text for diagnostics.
    AssertFailed { value: u64, predicate: String },
    /// No variant pattern matched the computed discriminant.
    UnknownVariant { key: u64 },
    /// An expression referenced a name that is not bound in scope.
    UnboundVar { name: String },
    /// Expression arithmetic left the machine-word range.
    Overflow,
    /// A fixed-value or assertion check was applied to a non-scalar value.
    NotScalar,
    /// A repeated element read consumed no bits, so a `while` loop could
    /// never advance.
    NoProgress,
    /// The context supplied to a decode call does not match the schema's
    /// declared required-context signature.
    ContextArity,
    /// A field named a custom reader that the reader set does not provide.
    UnknownReader { name: String },
}

/// Mathematical mirror of `PacketRsErrorKind`.
pub enum SpecErrorKind {
    Exhausted,
    FixedMismatch { expected: u64, actual: u64 },
    AssertFailed { value: u64, predicate: Seq<char> },
    UnknownVariant { key: u64 },
    UnboundVar { name: Seq<char> },
    Overflow,
    NotScalar,
    NoProgress,
    ContextArity,
    UnknownReader { name: Seq<char> },
}

impl View for PacketRsErrorKind {
    type V = SpecErrorKind;

    open spec fn view(&self) -> SpecErrorKind {
        match self {
            PacketRsErrorKind::Exhausted => SpecErrorKind::Exhausted,
            PacketRsErrorKind::FixedMismatch { expected, actual } => SpecErrorKind::FixedMismatch {
                expected: *expected,
                actual: *actual,
            },
            PacketRsErrorKind::AssertFailed { value, predicate } => SpecErrorKind::AssertFailed {
                value: *value,
                predicate: predicate@,
            },
            PacketRsErrorKind::UnknownVariant { key } => SpecErrorKind::UnknownVariant {
                key: *key,
            },
            PacketRsErrorKind::UnboundVar { name } => SpecErrorKind::UnboundVar { name: name@ },
            PacketRsErrorKind::Overflow => SpecErrorKind::Overflow,
            PacketRsErrorKind::NotScalar => SpecErrorKind::NotScalar,
            PacketRsErrorKind::NoProgress => SpecErrorKind::NoProgress,
            PacketRsErrorKind::ContextArity => SpecErrorKind::ContextArity,
            PacketRsErrorKind::UnknownReader { name } => SpecErrorKind::UnknownReader {
                name: name@,
            },
        }
    }
}

/// A decode failure: its innermost cause and the trail of field and variant
/// names it passed on the way out, innermost name first.
#[derive(Debug, Clone)]
pub struct PacketRsError {
    pub kind: PacketRsErrorKind,
    pub trail: Vec<String>,
}

/// Mathematical mirror of `PacketRsError`.
pub struct SpecError {
    pub kind: SpecErrorKind,
    pub trail: Seq<Seq<char>>,
}

impl View for PacketRsError {
    type V = SpecError;

    open spec fn view(&self) -> SpecError {
        SpecError { kind: self.kind@, trail: self.trail@.map_values(|s: String| s@) }
    }
}

/// The given failure, annotated with one more enclosing name.
pub open spec fn spec_annotate(e: SpecError, name: Seq<char>) -> SpecError {
    SpecError { kind: e.kind, trail: e.trail.push(name) }
}

impl PacketRsError {
    /// A fresh failure with an empty trail.
    pub fn new(kind: PacketRsErrorKind) -> (e: PacketRsError)
        ensures
            e@.kind == kind@,
            e@.trail == Seq::<Seq<char>>::empty(),
    {
        let e = PacketRsError { kind, trail: Vec::new() };
        proof {
            assert(e@.trail =~= Seq::<Seq<char>>::empty());
        }
        e
    }

    /// Annotate the failure with the name of the enclosing field or variant.
    pub fn annotate(self, name: &String) -> (e: PacketRsError)
        ensures
            e@ == spec_annotate(self@, name@),
    {
        let mut e = self;
        let ghost before = e@;
        e.trail.push(name.clone());
        proof {
            assert(e@.trail =~= before.trail.push(name@));
        }
        e
    }
}

/// A decode either fully succeeds or yields exactly one annotated failure.
pub type PacketRsResult<T> = Result<T, PacketRsError>;

} // verus!
