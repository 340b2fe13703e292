use vstd::prelude::*;

verus! {

use crate::expr::Expr;
use crate::expr::Pred;

/// Byte order used to interpret a multi-byte scalar read.  When neither the
/// field nor its schema declares one, network order is used.
#[derive(Debug, Clone, Copy, PartialEq, Eq, Structural)]
pub enum ByteOrder {
    /// Most significant byte first; the default on the wire.
    NetworkOrder,
    /// Most significant byte first.
    BigEndian,
    /// Least significant byte first.
    LittleEndian,
}

/// The declared type of a field together with the parameter that governs
/// how it is read.
#[derive(Debug)]
pub enum FieldKind {
    /// A fixed-width unsigned read of `width` bits, 1 through 64.
    Scalar { width: u64 },
    /// A single-bit boolean read.
    Boolean,
    /// A nested record decode; the field's context expressions satisfy the
    /// record's required-context signature.
    Record(Box<RecordSpec>),
    /// A nested tagged-union decode.
    Union(Box<UnionSpec>),
    /// A repeated field with an exact element-count expression.
    ListCount { elem: Box<FieldKind>, count: Expr },
    /// A repeated field with a continue-reading predicate, re-evaluated
    /// before each element read; the predicate does not see the element
    /// about to be read.
    ListWhile { elem: Box<FieldKind>, pred: Pred },
    /// An optional field with a presence predicate.  When the predicate is
    /// false the field is absent and no bits are consumed.
    OptionalWhen { elem: Box<FieldKind>, when: Pred },
    /// A literal assignment: the expression's value is assigned directly
    /// and no bits are consumed.
    Assigned(Expr),
    /// Delegation to a named custom reader supplied by the caller.
    Custom { reader: String },
}

/// One field of a record or variant: its name, how it is read, and its
/// post-read checks.
#[derive(Debug)]
pub struct FieldSpec {
    pub name: String,
    pub kind: FieldKind,
    /// Expressions evaluated in the enclosing scope and passed positionally
    /// as the nested schema's (or custom reader's) context.
    pub ctx: Vec<Expr>,
    /// Byte-order override for this field's scalar reads.
    pub byte_order: Option<ByteOrder>,
    /// Expected literal value, compared right after the field decodes.
    pub fixed: Option<Expr>,
    /// Post-read validity predicate over the decoded value (bound under the
    /// field's own name), with its source text for diagnostics.
    pub assertion: Option<(Pred, String)>,
}

/// An ordered record schema: fields are decoded exactly in declaration
/// order.
#[derive(Debug)]
pub struct RecordSpec {
    pub name: String,
    /// Names bound, in order, from the caller-supplied context values.
    pub required_ctx: Vec<String>,
    /// Default byte order inherited by this record's fields.
    pub byte_order: Option<ByteOrder>,
    /// Name of a custom reader that replaces the whole record decode.
    pub reader: Option<String>,
    pub fields: Vec<FieldSpec>,
}

/// The discriminant-matching pattern of one variant.
#[derive(Debug)]
pub enum VariantPattern {
    /// Matches exactly this discriminant.
    Literal(u64),
    /// Matches any of these discriminants.
    AnyOf(Vec<u64>),
    /// Binds the discriminant to `bind` and matches when `cond` holds; the
    /// binding stays in scope for the variant's field reads.
    Guarded { bind: String, cond: Pred },
}

/// One variant of a tagged union: its pattern and its fields.
#[derive(Debug)]
pub struct VariantSpec {
    pub name: String,
    pub pattern: VariantPattern,
    /// Byte-order default for this variant's fields, overriding the
    /// union's.
    pub byte_order: Option<ByteOrder>,
    pub fields: Vec<FieldSpec>,
}

/// A tagged-union schema: a discriminant key expression and an ordered
/// variant list; patterns are tried in declaration order and the first
/// match wins.
#[derive(Debug)]
pub struct UnionSpec {
    pub name: String,
    pub required_ctx: Vec<String>,
    pub byte_order: Option<ByteOrder>,
    /// Name of a custom reader that replaces the whole union decode.
    pub reader: Option<String>,
    /// Discriminant key expression, evaluated once over the context
    /// bindings.
    pub key: Expr,
    pub variants: Vec<VariantSpec>,
}

/// Structural well-formedness of a field kind, given how many context
/// expressions its field passes: scalar widths stay in range, and nested
/// schemas receive a context of exactly their declared arity.
pub open spec fn wf_kind(k: FieldKind, n_ctx: nat) -> bool
    decreases k,
{
    match k {
        FieldKind::Scalar { width } => 1 <= width <= 64 && n_ctx == 0,
        FieldKind::Boolean => n_ctx == 0,
        FieldKind::Record(r) => r.required_ctx@.len() == n_ctx && wf_record(*r),
        FieldKind::Union(u) => u.required_ctx@.len() == n_ctx && wf_union(*u),
        FieldKind::ListCount { elem, count } => wf_kind(*elem, n_ctx),
        FieldKind::ListWhile { elem, pred } => wf_kind(*elem, n_ctx),
        FieldKind::OptionalWhen { elem, when } => wf_kind(*elem, n_ctx),
        FieldKind::Assigned(e) => n_ctx == 0,
        FieldKind::Custom { reader } => true,
    }
}

/// Structural well-formedness of one field.
pub open spec fn wf_field(f: FieldSpec) -> bool
    decreases f,
{
    wf_kind(f.kind, f.ctx@.len())
}

/// Structural well-formedness of a field sequence.
pub open spec fn wf_fields(fs: Seq<FieldSpec>) -> bool
    decreases fs,
{
    fs.len() == 0 || (wf_field(fs[0]) && wf_fields(fs.subrange(1, fs.len() as int)))
}

/// Structural well-formedness of a record schema.
pub open spec fn wf_record(r: RecordSpec) -> bool
    decreases r,
{
    wf_fields(r.fields@)
}

/// Structural well-formedness of one variant.
pub open spec fn wf_variant(v: VariantSpec) -> bool
    decreases v,
{
    wf_fields(v.fields@)
}

/// Structural well-formedness of a variant sequence.
pub open spec fn wf_variants(vs: Seq<VariantSpec>) -> bool
    decreases vs,
{
    vs.len() == 0 || (wf_variant(vs[0]) && wf_variants(vs.subrange(1, vs.len() as int)))
}

/// Structural well-formedness of a union schema.
pub open spec fn wf_union(u: UnionSpec) -> bool
    decreases u,
{
    wf_variants(u.variants@)
}

/// Check a field kind's structural well-formedness.
fn check_kind(k: &FieldKind, n_ctx: usize) -> (b: bool)
    ensures
        b == wf_kind(*k, n_ctx as nat),
    decreases *k,
{
    match k {
        FieldKind::Scalar { width } => 1 <= *width && *width <= 64 && n_ctx == 0,
        FieldKind::Boolean => n_ctx == 0,
        FieldKind::Record(r) => r.required_ctx.len() == n_ctx && check_record(r),
        FieldKind::Union(u) => u.required_ctx.len() == n_ctx && check_union(u),
        FieldKind::ListCount { elem, count } => check_kind(elem, n_ctx),
        FieldKind::ListWhile { elem, pred } => check_kind(elem, n_ctx),
        FieldKind::OptionalWhen { elem, when } => check_kind(elem, n_ctx),
        FieldKind::Assigned(e) => n_ctx == 0,
        FieldKind::Custom { reader } => true,
    }
}

/// Check one field's structural well-formedness.
fn check_field(f: &FieldSpec) -> (b: bool)
    ensures
        b == wf_field(*f),
    decreases *f,
{
    check_kind(&f.kind, f.ctx.len())
}

/// Check every field from index `i` on.
fn check_fields(fs: &Vec<FieldSpec>, i: usize) -> (b: bool)
    requires
        i <= fs@.len(),
    ensures
        b == wf_fields(fs@.subrange(i as int, fs@.len() as int)),
    decreases fs@.subrange(i as int, fs@.len() as int),
{
    let ghost tail = fs@.subrange(i as int, fs@.len() as int);
    if i == fs.len() {
        true
    } else {
        proof {
            assert(tail[0] == fs@[i as int]);
            assert(tail.subrange(1, tail.len() as int) =~= fs@.subrange(
                i + 1,
                fs@.len() as int,
            ));
        }
        check_field(&fs[i]) && check_fields(fs, i + 1)
    }
}

/// Check every variant from index `i` on.
fn check_variants(vs: &Vec<VariantSpec>, i: usize) -> (b: bool)
    requires
        i <= vs@.len(),
    ensures
        b == wf_variants(vs@.subrange(i as int, vs@.len() as int)),
    decreases vs@.subrange(i as int, vs@.len() as int),
{
    let ghost tail = vs@.subrange(i as int, vs@.len() as int);
    if i == vs.len() {
        true
    } else {
        proof {
            assert(tail[0] == vs@[i as int]);
            assert(tail.subrange(1, tail.len() as int) =~= vs@.subrange(
                i + 1,
                vs@.len() as int,
            ));
            assert(vs@[i as int].fields@.subrange(0, vs@[i as int].fields@.len() as int)
                =~= vs@[i as int].fields@);
        }
        let b1 = check_fields(&vs[i].fields, 0);
        let b2 = check_variants(vs, i + 1);
        proof {
            assert(b1 == wf_fields(vs@[i as int].fields@));
            assert(b1 == wf_variant(tail[0]));
            assert(b2 == wf_variants(tail.subrange(1, tail.len() as int)));
            assert((b1 && b2) == wf_variants(tail));
        }
        b1 && b2
    }
}

/// Check a record schema's structural well-formedness.
fn check_record(r: &RecordSpec) -> (b: bool)
    ensures
        b == wf_record(*r),
    decreases *r,
{
    proof {
        assert(r.fields@.subrange(0, r.fields@.len() as int) =~= r.fields@);
    }
    check_fields(&r.fields, 0)
}

/// Check a union schema's structural well-formedness.
fn check_union(u: &UnionSpec) -> (b: bool)
    ensures
        b == wf_union(*u),
    decreases *u,
{
    proof {
        assert(u.variants@.subrange(0, u.variants@.len() as int) =~= u.variants@);
    }
    check_variants(&u.variants, 0)
}

/// The character of one decimal digit.
pub open spec fn digit_char(d: nat) -> char {
    if d == 0 {
        '0'
    } else if d == 1 {
        '1'
    } else if d == 2 {
        '2'
    } else if d == 3 {
        '3'
    } else if d == 4 {
        '4'
    } else if d == 5 {
        '5'
    } else if d == 6 {
        '6'
    } else if d == 7 {
        '7'
    } else if d == 8 {
        '8'
    } else {
        '9'
    }
}

/// The decimal digits of `n`, most significant first.
pub open spec fn spec_decimal(n: nat) -> Seq<char>
    decreases n,
{
    if n < 10 {
        seq![digit_char(n)]
    } else {
        spec_decimal(n / 10).push(digit_char(n % 10))
    }
}

/// The synthetic name assigned to the positional field at `index`.
pub open spec fn synthetic_name(index: nat) -> Seq<char> {
    "field_"@ + spec_decimal(index)
}

/// Append `n`'s decimal digits to the string.
fn push_decimal(s: &mut String, n: u64)
    ensures
        final(s)@ == old(s)@ + spec_decimal(n as nat),
    decreases n,
{
    let digits: &str = "0123456789";
    proof {
        reveal_strlit("0123456789");
    }
    if n >= 10 {
        push_decimal(s, n / 10);
    }
    let d: usize = (n % 10) as usize;
    let piece: &str = digits.substring_char(d, d + 1);
    proof {
        assert(piece@ =~= seq![digit_char((n % 10) as nat)]);
    }
    s.append(piece);
    proof {
        assert(s@ =~= old(s)@ + spec_decimal(n as nat));
    }
}

impl FieldSpec {
    /// A positional (tuple-style) field has no declared name, so a
    /// synthetic index-based one — the field's position rendered in
    /// decimal — is assigned in its place.
    pub fn positional(index: u64, kind: FieldKind) -> (f: FieldSpec)
        ensures
            f.name@ == synthetic_name(index as nat),
            f.kind == kind,
            f.ctx@.len() == 0,
            f.byte_order is None,
            f.fixed is None,
            f.assertion is None,
    {
        let mut name = String::from_str("field_");
        push_decimal(&mut name, index);
        FieldSpec {
            name,
            kind,
            ctx: Vec::new(),
            byte_order: None,
            fixed: None,
            assertion: None,
        }
    }
}

impl RecordSpec {
    /// The schema-definition checks that composition must pass before the
    /// schema may be decoded with.
    pub open spec fn wf(&self) -> bool {
        wf_record(*self)
    }

    /// Detect schema-definition errors at composition time.
    pub fn validate(&self) -> (b: bool)
        ensures
            b == self.wf(),
    {
        check_record(self)
    }
}

impl UnionSpec {
    /// The schema-definition checks that composition must pass before the
    /// schema may be decoded with.
    pub open spec fn wf(&self) -> bool {
        wf_union(*self)
    }

    /// Detect schema-definition errors at composition time.
    pub fn validate(&self) -> (b: bool)
        ensures
            b == self.wf(),
    {
        check_union(self)
    }
}

} // verus!
