use vstd::prelude::*;

verus! {

use crate::cursor::BitCursor;
use crate::cursor::spec_read_bits;
use crate::cursor::spec_read_bool;
use crate::cursor::swap_bytes;
use crate::error::PacketRsError;
use crate::error::PacketRsErrorKind;
use crate::error::SpecError;
use crate::error::SpecErrorKind;
use crate::error::spec_annotate;
use crate::expr::Expr;
use crate::expr::Pred;
use crate::expr::spec_eval_expr;
use crate::expr::spec_eval_pred;
use crate::reader::PacketrsRead;
use crate::schema::ByteOrder;
use crate::schema::FieldKind;
use crate::schema::FieldSpec;
use crate::schema::RecordSpec;
use crate::schema::UnionSpec;
use crate::schema::VariantPattern;
use crate::schema::VariantSpec;
use crate::value::SpecValue;
use crate::value::Value;
use crate::value::spec_value_scalar;
use crate::value::values_view;
use crate::value::named_values_view;
use crate::schema::wf_field;
use crate::schema::wf_fields;
use crate::schema::wf_kind;
use crate::schema::wf_variant;
use crate::schema::wf_variants;
use crate::expr::Env;
use crate::expr::env_view;
use crate::expr::eval_expr;
use crate::expr::eval_pred;
use crate::cursor::swap_bytes_u64;

/// The number of bits left on a stream of the given length at the given
/// position.
pub open spec fn rem_of(bits: Seq<bool>, pos: nat) -> nat {
    if pos <= bits.len() {
        (bits.len() - pos) as nat
    } else {
        0
    }
}

/// A failure with the given cause and an empty trail.
pub open spec fn err0(k: SpecErrorKind) -> SpecError {
    SpecError { kind: k, trail: Seq::empty() }
}

/// The environment a schema starts from: its declared context names bound,
/// in order, to the caller-supplied values.
pub open spec fn spec_bind_ctx(names: Seq<String>, vals: Seq<u64>) -> Seq<(Seq<char>, u64)> {
    Seq::new(names.len(), |i: int| (names[i]@, vals[i]))
}

/// The environment after a field decodes: scalar results are bound under
/// the field's name, other values add no binding.
pub open spec fn spec_bind_value(
    env: Seq<(Seq<char>, u64)>,
    name: Seq<char>,
    v: SpecValue,
) -> Seq<(Seq<char>, u64)> {
    match spec_value_scalar(v) {
        Some(u) => env.push((name, u)),
        None => env,
    }
}

/// The byte order a field's scalar reads use: the field's own override if
/// declared, else the enclosing schema's default, else network order.
pub open spec fn spec_resolve_order(field: Option<ByteOrder>, schema: Option<ByteOrder>) -> ByteOrder {
    match field {
        Some(b) => b,
        None => match schema {
            Some(b) => b,
            None => ByteOrder::NetworkOrder,
        },
    }
}

/// The byte-order default a variant's fields inherit: the variant's own if
/// declared, else the union's.
pub open spec fn spec_variant_order(v: Option<ByteOrder>, u: Option<ByteOrder>) -> Option<ByteOrder> {
    match v {
        Some(b) => Some(b),
        None => u,
    }
}

/// What a fixed-width scalar read yields: the next `w` bits as an unsigned
/// value in the given byte order, and the advanced position.
pub open spec fn spec_read_scalar(bits: Seq<bool>, pos: nat, w: u64, bo: ByteOrder) -> Result<
    (u64, nat),
    SpecErrorKind,
> {
    match spec_read_bits(bits, pos, w as nat) {
        Ok(vp) => Ok((spec_apply_order(vp.0, w, bo), vp.1)),
        Err(e) => Err(SpecErrorKind::Exhausted),
    }
}

/// A network-order read value reinterpreted in the requested byte order.
pub open spec fn spec_apply_order(v: u64, w: u64, bo: ByteOrder) -> u64 {
    match bo {
        ByteOrder::LittleEndian => swap_bytes(v as nat, (((w + 7) / 8) as nat)) as u64,
        _ => v,
    }
}

/// Evaluate a list of context expressions, left to right; the first
/// evaluation error wins.
pub open spec fn spec_eval_exprs(es: Seq<Expr>, env: Seq<(Seq<char>, u64)>, rem: nat) -> Result<
    Seq<u64>,
    SpecErrorKind,
>
    decreases es,
{
    if es.len() == 0 {
        Ok(Seq::empty())
    } else {
        match spec_eval_expr(es[0], env, rem) {
            Ok(v) => match spec_eval_exprs(es.subrange(1, es.len() as int), env, rem) {
                Ok(rest) => Ok(seq![v] + rest),
                Err(k) => Err(k),
            },
            Err(k) => Err(k),
        }
    }
}

/// The fixed-value check a field runs right after it decodes: evaluate the
/// expected expression and compare it with the decoded value's scalar
/// reading.  `None` means the check passes.
pub open spec fn spec_check_fixed(
    fx: Option<Expr>,
    v: SpecValue,
    env: Seq<(Seq<char>, u64)>,
    rem: nat,
) -> Option<SpecErrorKind> {
    match fx {
        None => None,
        Some(e) => match spec_eval_expr(e, env, rem) {
            Err(k) => Some(k),
            Ok(c) => match spec_value_scalar(v) {
                None => Some(SpecErrorKind::NotScalar),
                Some(u) => if u == c {
                    None
                } else {
                    Some(SpecErrorKind::FixedMismatch { expected: c, actual: u })
                },
            },
        },
    }
}

/// The assertion check a field runs after the fixed-value check: the
/// predicate is evaluated with the decoded value bound under the field's
/// name.  `None` means the check passes.
pub open spec fn spec_check_assert(
    a: Option<(Pred, String)>,
    v: SpecValue,
    env: Seq<(Seq<char>, u64)>,
    rem: nat,
) -> Option<SpecErrorKind> {
    match a {
        None => None,
        Some(pt) => match spec_value_scalar(v) {
            None => Some(SpecErrorKind::NotScalar),
            Some(u) => match spec_eval_pred(pt.0, env, rem) {
                Err(k) => Some(k),
                Ok(true) => None,
                Ok(false) => Some(SpecErrorKind::AssertFailed { value: u, predicate: pt.1@ }),
            },
        },
    }
}

/// What decoding a record schema yields on the given stream: its fields
/// decoded in declaration order under the context bindings, or the first
/// failure.  A custom reader declared on the record replaces the whole
/// decode, its failures annotated with the reader's name.
pub open spec fn spec_decode_record<R: PacketrsRead>(
    rd: R,
    rec: RecordSpec,
    ctx: Seq<u64>,
    bits: Seq<bool>,
    pos: nat,
) -> Result<(SpecValue, nat), SpecError>
    decreases rec, 0nat, 0nat,
{
    if ctx.len() != rec.required_ctx@.len() {
        Err(err0(SpecErrorKind::ContextArity))
    } else {
        let env = spec_bind_ctx(rec.required_ctx@, ctx);
        match rec.reader {
            Some(rname) => match rd.model(rname@, ctx, bits, pos) {
                Ok(vp) => Ok(vp),
                Err(e) => Err(spec_annotate(e, rname@)),
            },
            None => match spec_decode_fields(rd, rec.fields@, rec.byte_order, env, bits, pos) {
                Ok(fp) => Ok((SpecValue::Record(fp.0), fp.1)),
                Err(e) => Err(e),
            },
        }
    }
}

/// What decoding a field sequence yields: each field in order, every
/// scalar result bound into the environment for the expressions of the
/// fields after it.
pub open spec fn spec_decode_fields<R: PacketrsRead>(
    rd: R,
    fs: Seq<FieldSpec>,
    dbo: Option<ByteOrder>,
    env: Seq<(Seq<char>, u64)>,
    bits: Seq<bool>,
    pos: nat,
) -> Result<(Seq<(Seq<char>, SpecValue)>, nat), SpecError>
    decreases fs, 0nat, 0nat,
{
    if fs.len() == 0 {
        Ok((Seq::empty(), pos))
    } else {
        match spec_decode_field(rd, fs[0], dbo, env, bits, pos) {
            Ok(vp) => {
                let env2 = spec_bind_value(env, fs[0].name@, vp.0);
                match spec_decode_fields(
                    rd,
                    fs.subrange(1, fs.len() as int),
                    dbo,
                    env2,
                    bits,
                    vp.1,
                ) {
                    Ok(rest) => Ok((seq![(fs[0].name@, vp.0)] + rest.0, rest.1)),
                    Err(e) => Err(e),
                }
            },
            Err(e) => Err(e),
        }
    }
}

/// What decoding one field yields: the read resolved by the field's kind,
/// then the fixed-value check, then the assertion check; every failure is
/// annotated with the field's name.
pub open spec fn spec_decode_field<R: PacketrsRead>(
    rd: R,
    f: FieldSpec,
    dbo: Option<ByteOrder>,
    env: Seq<(Seq<char>, u64)>,
    bits: Seq<bool>,
    pos: nat,
) -> Result<(SpecValue, nat), SpecError>
    decreases f, 0nat, 0nat,
{
    let bo = spec_resolve_order(f.byte_order, dbo);
    match spec_decode_kind(rd, f.kind, bo, f.ctx@, env, bits, pos) {
        Err(e) => Err(spec_annotate(e, f.name@)),
        Ok(vp) => {
            let env2 = spec_bind_value(env, f.name@, vp.0);
            let rem2 = rem_of(bits, vp.1);
            match spec_check_fixed(f.fixed, vp.0, env2, rem2) {
                Some(k) => Err(spec_annotate(err0(k), f.name@)),
                None => match spec_check_assert(f.assertion, vp.0, env2, rem2) {
                    Some(k) => Err(spec_annotate(err0(k), f.name@)),
                    None => Ok(vp),
                },
            }
        },
    }
}

/// What one read of a field kind yields: a scalar or boolean read, a
/// nested schema decode under the field's context expressions, a repeated
/// or optional read, a literal assignment, or a custom reader's outcome.
pub open spec fn spec_decode_kind<R: PacketrsRead>(
    rd: R,
    k: FieldKind,
    bo: ByteOrder,
    ctxe: Seq<Expr>,
    env: Seq<(Seq<char>, u64)>,
    bits: Seq<bool>,
    pos: nat,
) -> Result<(SpecValue, nat), SpecError>
    decreases k, 0nat, 0nat,
{
    match k {
        FieldKind::Scalar { width } => match spec_read_scalar(bits, pos, width, bo) {
            Ok(vp) => Ok((SpecValue::Uint(vp.0), vp.1)),
            Err(kk) => Err(err0(kk)),
        },
        FieldKind::Boolean => match spec_read_bool(bits, pos) {
            Ok(vp) => Ok((SpecValue::Bool(vp.0), vp.1)),
            Err(e) => Err(err0(SpecErrorKind::Exhausted)),
        },
        FieldKind::Record(r) => match spec_eval_exprs(ctxe, env, rem_of(bits, pos)) {
            Ok(vals) => spec_decode_record(rd, *r, vals, bits, pos),
            Err(kk) => Err(err0(kk)),
        },
        FieldKind::Union(u) => match spec_eval_exprs(ctxe, env, rem_of(bits, pos)) {
            Ok(vals) => spec_decode_union(rd, *u, vals, bits, pos),
            Err(kk) => Err(err0(kk)),
        },
        FieldKind::ListCount { elem, count } => match spec_eval_expr(
            count,
            env,
            rem_of(bits, pos),
        ) {
            Ok(n) => match spec_decode_count(rd, *elem, bo, ctxe, env, n as nat, bits, pos) {
                Ok(lp) => Ok((SpecValue::List(lp.0), lp.1)),
                Err(e) => Err(e),
            },
            Err(kk) => Err(err0(kk)),
        },
        FieldKind::ListWhile { elem, pred } => match spec_decode_while(
            rd,
            *elem,
            pred,
            bo,
            ctxe,
            env,
            bits,
            pos,
        ) {
            Ok(lp) => Ok((SpecValue::List(lp.0), lp.1)),
            Err(e) => Err(e),
        },
        FieldKind::OptionalWhen { elem, when } => match spec_eval_pred(
            when,
            env,
            rem_of(bits, pos),
        ) {
            Ok(true) => match spec_decode_kind(rd, *elem, bo, ctxe, env, bits, pos) {
                Ok(vp) => Ok((SpecValue::Present(Box::new(vp.0)), vp.1)),
                Err(e) => Err(e),
            },
            Ok(false) => Ok((SpecValue::Absent, pos)),
            Err(kk) => Err(err0(kk)),
        },
        FieldKind::Assigned(e) => match spec_eval_expr(e, env, rem_of(bits, pos)) {
            Ok(v) => Ok((SpecValue::Uint(v), pos)),
            Err(kk) => Err(err0(kk)),
        },
        FieldKind::Custom { reader } => match spec_eval_exprs(ctxe, env, rem_of(bits, pos)) {
            Ok(vals) => rd.model(reader@, vals, bits, pos),
            Err(kk) => Err(err0(kk)),
        },
    }
}

/// What a `count`-repeated read yields: exactly `n` elements in order; any
/// element failure aborts the whole field.
pub open spec fn spec_decode_count<R: PacketrsRead>(
    rd: R,
    elem: FieldKind,
    bo: ByteOrder,
    ctxe: Seq<Expr>,
    env: Seq<(Seq<char>, u64)>,
    n: nat,
    bits: Seq<bool>,
    pos: nat,
) -> Result<(Seq<SpecValue>, nat), SpecError>
    decreases elem, 1nat, n,
{
    if n == 0 {
        Ok((Seq::empty(), pos))
    } else {
        match spec_decode_kind(rd, elem, bo, ctxe, env, bits, pos) {
            Ok(vp) => match spec_decode_count(
                rd,
                elem,
                bo,
                ctxe,
                env,
                (n - 1) as nat,
                bits,
                vp.1,
            ) {
                Ok(rest) => Ok((seq![vp.0] + rest.0, rest.1)),
                Err(e) => Err(e),
            },
            Err(e) => Err(e),
        }
    }
}

/// What a `while`-repeated read yields: the predicate is re-evaluated over
/// the ambient scope before each element read, and elements are read until
/// it goes false.  An element read that consumes no bits cannot make
/// progress and fails the field.
pub open spec fn spec_decode_while<R: PacketrsRead>(
    rd: R,
    elem: FieldKind,
    pred: Pred,
    bo: ByteOrder,
    ctxe: Seq<Expr>,
    env: Seq<(Seq<char>, u64)>,
    bits: Seq<bool>,
    pos: nat,
) -> Result<(Seq<SpecValue>, nat), SpecError>
    decreases elem, 1nat, rem_of(bits, pos),
{
    match spec_eval_pred(pred, env, rem_of(bits, pos)) {
        Err(kk) => Err(err0(kk)),
        Ok(false) => Ok((Seq::empty(), pos)),
        Ok(true) => match spec_decode_kind(rd, elem, bo, ctxe, env, bits, pos) {
            Err(e) => Err(e),
            Ok(vp) => if pos < vp.1 <= bits.len() {
                match spec_decode_while(rd, elem, pred, bo, ctxe, env, bits, vp.1) {
                    Ok(rest) => Ok((seq![vp.0] + rest.0, rest.1)),
                    Err(e) => Err(e),
                }
            } else {
                Err(err0(SpecErrorKind::NoProgress))
            },
        },
    }
}

/// Whether a variant's pattern matches the discriminant; a guarded
/// pattern's condition sees the discriminant under the pattern's binding.
pub open spec fn spec_match_pattern(
    pat: VariantPattern,
    key: u64,
    env: Seq<(Seq<char>, u64)>,
    bits: Seq<bool>,
    pos: nat,
) -> Result<bool, SpecErrorKind> {
    match pat {
        VariantPattern::Literal(c) => Ok(key == c),
        VariantPattern::AnyOf(vals) => Ok(vals@.contains(key)),
        VariantPattern::Guarded { bind, cond } => spec_eval_pred(
            cond,
            env.push((bind@, key)),
            rem_of(bits, pos),
        ),
    }
}

/// What decoding a tagged union yields: the discriminant key is evaluated
/// once over the context bindings, the variant list is scanned in
/// declaration order, and the first matching variant's fields are decoded;
/// variant failures are annotated with the variant's name.  A custom
/// reader declared on the union replaces the whole decode.
pub open spec fn spec_decode_union<R: PacketrsRead>(
    rd: R,
    u: UnionSpec,
    ctx: Seq<u64>,
    bits: Seq<bool>,
    pos: nat,
) -> Result<(SpecValue, nat), SpecError>
    decreases u, 0nat, 0nat,
{
    if ctx.len() != u.required_ctx@.len() {
        Err(err0(SpecErrorKind::ContextArity))
    } else {
        let env = spec_bind_ctx(u.required_ctx@, ctx);
        match u.reader {
            Some(rname) => match rd.model(rname@, ctx, bits, pos) {
                Ok(vp) => Ok(vp),
                Err(e) => Err(spec_annotate(e, rname@)),
            },
            None => match spec_eval_expr(u.key, env, rem_of(bits, pos)) {
                Err(kk) => Err(err0(kk)),
                Ok(key) => spec_decode_variants(rd, u.variants@, u.byte_order, key, env, bits, pos),
            },
        }
    }
}

/// Scan the variant list in order: the first variant whose pattern matches
/// the discriminant decodes its fields; if none matches, the decode fails
/// with an unknown-variant error.
pub open spec fn spec_decode_variants<R: PacketrsRead>(
    rd: R,
    vs: Seq<VariantSpec>,
    ubo: Option<ByteOrder>,
    key: u64,
    env: Seq<(Seq<char>, u64)>,
    bits: Seq<bool>,
    pos: nat,
) -> Result<(SpecValue, nat), SpecError>
    decreases vs, 0nat, 0nat,
{
    if vs.len() == 0 {
        Err(err0(SpecErrorKind::UnknownVariant { key }))
    } else {
        match spec_match_pattern(vs[0].pattern, key, env, bits, pos) {
            Err(kk) => Err(err0(kk)),
            Ok(false) => spec_decode_variants(
                rd,
                vs.subrange(1, vs.len() as int),
                ubo,
                key,
                env,
                bits,
                pos,
            ),
            Ok(true) => {
                let env2 = match vs[0].pattern {
                    VariantPattern::Guarded { bind, cond } => env.push((bind@, key)),
                    _ => env,
                };
                let vbo = spec_variant_order(vs[0].byte_order, ubo);
                match spec_decode_fields(rd, vs[0].fields@, vbo, env2, bits, pos) {
                    Ok(fp) => Ok(
                        (SpecValue::Variant { name: vs[0].name@, fields: fp.0 }, fp.1),
                    ),
                    Err(e) => Err(spec_annotate(e, vs[0].name@)),
                }
            },
        }
    }
}

/// Build the starting environment from context names and values.
fn bind_ctx(names: &Vec<String>, vals: &Vec<u64>) -> (env: Env)
    requires
        names@.len() == vals@.len(),
    ensures
        env_view(env@) == spec_bind_ctx(names@, vals@),
{
    let mut env: Env = Vec::new();
    let mut i: usize = 0;
    while i < names.len()
        invariant
            i <= names@.len(),
            names@.len() == vals@.len(),
            env@.len() == i,
            forall|j: int|
                0 <= j < i ==> env@[j] == (names@[j], vals@[j]),
        decreases names@.len() - i,
    {
        env.push((names[i].clone(), vals[i]));
        i = i + 1;
    }
    proof {
        assert(env_view(env@) =~= spec_bind_ctx(names@, vals@));
    }
    env
}

/// Copy an environment so that a nested scope can extend it.
fn clone_env(env: &Env) -> (r: Env)
    ensures
        r@ == env@,
{
    let mut r: Env = Vec::new();
    let mut i: usize = 0;
    while i < env.len()
        invariant
            i <= env@.len(),
            r@.len() == i,
            forall|j: int| 0 <= j < i ==> r@[j] == env@[j],
        decreases env@.len() - i,
    {
        r.push((env[i].0.clone(), env[i].1));
        i = i + 1;
    }
    proof {
        assert(r@ =~= env@);
    }
    r
}

/// Resolve the byte order a field's scalar reads use.
fn resolve_order(field: Option<ByteOrder>, schema: Option<ByteOrder>) -> (r: ByteOrder)
    ensures
        r == spec_resolve_order(field, schema),
{
    match field {
        Some(b) => b,
        None => match schema {
            Some(b) => b,
            None => ByteOrder::NetworkOrder,
        },
    }
}

/// Resolve the byte-order default a variant's fields inherit.
fn variant_order(v: Option<ByteOrder>, u: Option<ByteOrder>) -> (r: Option<ByteOrder>)
    ensures
        r == spec_variant_order(v, u),
{
    match v {
        Some(b) => Some(b),
        None => u,
    }
}

/// Read one fixed-width scalar in the given byte order.
fn read_scalar(cur: &mut BitCursor, w: u64, bo: ByteOrder) -> (r: Result<u64, PacketRsErrorKind>)
    requires
        1 <= w <= 64,
        old(cur).wf(),
    ensures
        final(cur).wf(),
        final(cur).bits() == old(cur).bits(),
        match spec_read_scalar(old(cur).bits(), old(cur).spec_pos(), w, bo) {
            Ok(vp) => r matches Ok(v) && v == vp.0 && final(cur).spec_pos() == vp.1,
            Err(k) => r matches Err(ke) && ke@ == k,
        },
{
    match cur.read_bits(w) {
        Ok(v) => match bo {
            ByteOrder::LittleEndian => {
                let n: u64 = (w + 7) / 8;
                Ok(swap_bytes_u64(v, n))
            },
            _ => Ok(v),
        },
        Err(e) => Err(PacketRsErrorKind::Exhausted),
    }
}

/// Evaluate the context expressions at indices `i` on, left to right.
fn eval_exprs_from(es: &Vec<Expr>, i: usize, env: &Env, rem: u64) -> (r: Result<
    Vec<u64>,
    PacketRsErrorKind,
>)
    requires
        i <= es@.len(),
    ensures
        match spec_eval_exprs(es@.subrange(i as int, es@.len() as int), env_view(env@), rem as nat) {
            Ok(vals) => r matches Ok(vs) && vs@ == vals,
            Err(k) => r matches Err(ke) && ke@ == k,
        },
    decreases es@.len() - i,
{
    let ghost tail = es@.subrange(i as int, es@.len() as int);
    if i == es.len() {
        let empty: Vec<u64> = Vec::new();
        proof {
            assert(empty@ =~= Seq::<u64>::empty());
        }
        Ok(empty)
    } else {
        proof {
            assert(tail[0] == es@[i as int]);
            assert(tail.subrange(1, tail.len() as int) =~= es@.subrange(i + 1, es@.len() as int));
        }
        match eval_expr(&es[i], env, rem) {
            Err(k) => Err(k),
            Ok(v) => match eval_exprs_from(es, i + 1, env, rem) {
                Err(k) => Err(k),
                Ok(mut rest) => {
                    rest.insert(0, v);
                    proof {
                        let svals = spec_eval_exprs(tail, env_view(env@), rem as nat)->Ok_0;
                        assert(rest@ =~= svals);
                    }
                    Ok(rest)
                },
            },
        }
    }
}

/// Evaluate a field's context expressions, left to right.
fn eval_exprs(es: &Vec<Expr>, env: &Env, rem: u64) -> (r: Result<Vec<u64>, PacketRsErrorKind>)
    ensures
        match spec_eval_exprs(es@, env_view(env@), rem as nat) {
            Ok(vals) => r matches Ok(vs) && vs@ == vals,
            Err(k) => r matches Err(ke) && ke@ == k,
        },
{
    proof {
        assert(es@.subrange(0, es@.len() as int) =~= es@);
    }
    eval_exprs_from(es, 0, env, rem)
}

/// Run a field's fixed-value check on its decoded value.
fn check_fixed(fx: &Option<Expr>, v: &Value, env: &Env, rem: u64) -> (r: Option<PacketRsErrorKind>)
    ensures
        match spec_check_fixed(*fx, v@, env_view(env@), rem as nat) {
            Some(k) => r matches Some(ke) && ke@ == k,
            None => r is None,
        },
{
    match fx {
        None => None,
        Some(e) => match eval_expr(e, env, rem) {
            Err(k) => Some(k),
            Ok(c) => match v.as_scalar() {
                None => Some(PacketRsErrorKind::NotScalar),
                Some(u) => if u == c {
                    None
                } else {
                    Some(PacketRsErrorKind::FixedMismatch { expected: c, actual: u })
                },
            },
        },
    }
}

/// Run a field's assertion check on its decoded value.
fn check_assert(a: &Option<(Pred, String)>, v: &Value, env: &Env, rem: u64) -> (r: Option<
    PacketRsErrorKind,
>)
    ensures
        match spec_check_assert(*a, v@, env_view(env@), rem as nat) {
            Some(k) => r matches Some(ke) && ke@ == k,
            None => r is None,
        },
{
    match a {
        None => None,
        Some(pt) => match v.as_scalar() {
            None => Some(PacketRsErrorKind::NotScalar),
            Some(u) => match eval_pred(&pt.0, env, rem) {
                Err(k) => Some(k),
                Ok(true) => None,
                Ok(false) => Some(
                    PacketRsErrorKind::AssertFailed { value: u, predicate: pt.1.clone() },
                ),
            },
        },
    }
}

/// Test a variant's pattern against the discriminant.
fn match_pattern(pat: &VariantPattern, key: u64, env: &Env, cur: &BitCursor) -> (r: Result<
    bool,
    PacketRsErrorKind,
>)
    requires
        cur.wf(),
    ensures
        match spec_match_pattern(*pat, key, env_view(env@), cur.bits(), cur.spec_pos()) {
            Ok(b) => r matches Ok(x) && x == b,
            Err(k) => r matches Err(ke) && ke@ == k,
        },
{
    match pat {
        VariantPattern::Literal(c) => Ok(key == *c),
        VariantPattern::AnyOf(vals) => {
            let mut j: usize = 0;
            let mut found: bool = false;
            while j < vals.len()
                invariant
                    j <= vals@.len(),
                    found == exists|t: int| 0 <= t < j && vals@[t] == key,
                decreases vals@.len() - j,
            {
                if vals[j] == key {
                    found = true;
                }
                j = j + 1;
            }
            proof {
                assert(found == vals@.contains(key));
            }
            Ok(found)
        },
        VariantPattern::Guarded { bind, cond } => {
            let mut env2 = clone_env(env);
            env2.push((bind.clone(), key));
            let rem = cur.remaining();
            proof {
                assert(env_view(env2@) =~= env_view(env@).push((bind@, key)));
            }
            match eval_pred(cond, &env2, rem) {
                Ok(b) => Ok(b),
                Err(k) => Err(k),
            }
        },
    }
}

/// Decode a record schema against the caller-supplied context values,
/// consuming bits from the cursor.  The result and the cursor's final
/// position are exactly what `spec_decode_record` says for the cursor's
/// starting state; on failure the stream contents are unchanged and the
/// error carries the trail of field names to the cause.
pub fn decode_record<R: PacketrsRead>(
    rd: &R,
    rec: &RecordSpec,
    ctx: &Vec<u64>,
    cur: &mut BitCursor,
) -> (r: Result<Value, PacketRsError>)
    requires
        rec.wf(),
        old(cur).wf(),
    ensures
        final(cur).wf(),
        final(cur).bits() == old(cur).bits(),
        match spec_decode_record(*rd, *rec, ctx@, old(cur).bits(), old(cur).spec_pos()) {
            Ok(vp) => r matches Ok(v) && v@ == vp.0 && final(cur).spec_pos() == vp.1,
            Err(e) => r matches Err(er) && er@ == e,
        },
    decreases *rec, 0nat, 0nat,
{
    if ctx.len() != rec.required_ctx.len() {
        return Err(PacketRsError::new(PacketRsErrorKind::ContextArity));
    }
    let mut env = bind_ctx(&rec.required_ctx, ctx);
    match &rec.reader {
        Some(rname) => match rd.read(rname, ctx, cur) {
            Ok(v) => Ok(v),
            Err(e) => Err(e.annotate(rname)),
        },
        None => {
            proof {
                assert(rec.fields@.subrange(0, rec.fields@.len() as int) =~= rec.fields@);
            }
            match decode_fields(rd, &rec.fields, 0, rec.byte_order, &mut env, cur) {
                Ok(nvs) => Ok(Value::Record(nvs)),
                Err(e) => Err(e),
            }
        },
    }
}

/// Decode a tagged union against the caller-supplied context values: the
/// discriminant key picks the first matching variant, whose fields are
/// then decoded.
pub fn decode_union<R: PacketrsRead>(
    rd: &R,
    u: &UnionSpec,
    ctx: &Vec<u64>,
    cur: &mut BitCursor,
) -> (r: Result<Value, PacketRsError>)
    requires
        u.wf(),
        old(cur).wf(),
    ensures
        final(cur).wf(),
        final(cur).bits() == old(cur).bits(),
        match spec_decode_union(*rd, *u, ctx@, old(cur).bits(), old(cur).spec_pos()) {
            Ok(vp) => r matches Ok(v) && v@ == vp.0 && final(cur).spec_pos() == vp.1,
            Err(e) => r matches Err(er) && er@ == e,
        },
    decreases *u, 0nat, 0nat,
{
    if ctx.len() != u.required_ctx.len() {
        return Err(PacketRsError::new(PacketRsErrorKind::ContextArity));
    }
    let env = bind_ctx(&u.required_ctx, ctx);
    match &u.reader {
        Some(rname) => match rd.read(rname, ctx, cur) {
            Ok(v) => Ok(v),
            Err(e) => Err(e.annotate(rname)),
        },
        None => {
            let rem = cur.remaining();
            match eval_expr(&u.key, &env, rem) {
                Err(ke) => Err(PacketRsError::new(ke)),
                Ok(key) => {
                    proof {
                        assert(u.variants@.subrange(0, u.variants@.len() as int) =~= u.variants@);
                    }
                    decode_variants(rd, &u.variants, 0, u.byte_order, key, &env, cur)
                },
            }
        },
    }
}

/// Decode the fields at indices `i` on, in order, extending the
/// environment with each scalar result.
fn decode_fields<R: PacketrsRead>(
    rd: &R,
    fs: &Vec<FieldSpec>,
    i: usize,
    dbo: Option<ByteOrder>,
    env: &mut Env,
    cur: &mut BitCursor,
) -> (r: Result<Vec<(String, Value)>, PacketRsError>)
    requires
        i <= fs@.len(),
        wf_fields(fs@.subrange(i as int, fs@.len() as int)),
        old(cur).wf(),
    ensures
        final(cur).wf(),
        final(cur).bits() == old(cur).bits(),
        match spec_decode_fields(
            *rd,
            fs@.subrange(i as int, fs@.len() as int),
            dbo,
            env_view(old(env)@),
            old(cur).bits(),
            old(cur).spec_pos(),
        ) {
            Ok(fp) => r matches Ok(nvs) && named_values_view(nvs@) == fp.0
                && final(cur).spec_pos() == fp.1,
            Err(e) => r matches Err(er) && er@ == e,
        },
    decreases fs@.subrange(i as int, fs@.len() as int), 0nat, 0nat,
{
    let ghost tail = fs@.subrange(i as int, fs@.len() as int);
    if i == fs.len() {
        let empty: Vec<(String, Value)> = Vec::new();
        proof {
            assert(named_values_view(empty@) =~= Seq::<(Seq<char>, SpecValue)>::empty());
        }
        Ok(empty)
    } else {
        proof {
            assert(tail[0] == fs@[i as int]);
            assert(tail.subrange(1, tail.len() as int) =~= fs@.subrange(i + 1, fs@.len() as int));
        }
        let field = &fs[i];
        match decode_field(rd, field, dbo, env, cur) {
            Err(e) => Err(e),
            Ok(v) => {
                let ghost v_spec = v@;
                match decode_fields(rd, fs, i + 1, dbo, env, cur) {
                    Err(e) => Err(e),
                    Ok(mut rest) => {
                        let ghost rest0 = rest@;
                        rest.insert(0, (field.name.clone(), v));
                        proof {
                            let s2 = rest@;
                            assert(s2[0].0@ == field.name@);
                            assert(s2[0].1 == v);
                            assert(s2.subrange(1, s2.len() as int) =~= rest0);
                        }
                        Ok(rest)
                    },
                }
            },
        }
    }
}

/// Decode one field: resolve its byte order, read by its kind, bind a
/// scalar result into the environment, then run the fixed-value and
/// assertion checks.  Every failure is annotated with the field's name.
pub fn decode_field<R: PacketrsRead>(
    rd: &R,
    f: &FieldSpec,
    dbo: Option<ByteOrder>,
    env: &mut Env,
    cur: &mut BitCursor,
) -> (r: Result<Value, PacketRsError>)
    requires
        wf_field(*f),
        old(cur).wf(),
    ensures
        final(cur).wf(),
        final(cur).bits() == old(cur).bits(),
        match spec_decode_field(
            *rd,
            *f,
            dbo,
            env_view(old(env)@),
            old(cur).bits(),
            old(cur).spec_pos(),
        ) {
            Ok(vp) => r matches Ok(v) && v@ == vp.0 && final(cur).spec_pos() == vp.1
                && env_view(final(env)@) == spec_bind_value(env_view(old(env)@), f.name@, vp.0),
            Err(e) => r matches Err(er) && er@ == e,
        },
    decreases *f, 0nat, 0nat,
{
    let bo = resolve_order(f.byte_order, dbo);
    match decode_kind(rd, &f.kind, bo, &f.ctx, env, cur) {
        Err(e) => Err(e.annotate(&f.name)),
        Ok(v) => {
            match v.as_scalar() {
                Some(u) => env.push((f.name.clone(), u)),
                None => (),
            }
            proof {
                assert(env_view(env@) =~= spec_bind_value(env_view(old(env)@), f.name@, v@));
            }
            let rem2 = cur.remaining();
            match check_fixed(&f.fixed, &v, env, rem2) {
                Some(k) => Err(PacketRsError::new(k).annotate(&f.name)),
                None => match check_assert(&f.assertion, &v, env, rem2) {
                    Some(k) => Err(PacketRsError::new(k).annotate(&f.name)),
                    None => Ok(v),
                },
            }
        },
    }
}

/// Perform one read as the field's kind directs.
fn decode_kind<R: PacketrsRead>(
    rd: &R,
    k: &FieldKind,
    bo: ByteOrder,
    ctxe: &Vec<Expr>,
    env: &Env,
    cur: &mut BitCursor,
) -> (r: Result<Value, PacketRsError>)
    requires
        wf_kind(*k, ctxe@.len()),
        old(cur).wf(),
    ensures
        final(cur).wf(),
        final(cur).bits() == old(cur).bits(),
        match spec_decode_kind(
            *rd,
            *k,
            bo,
            ctxe@,
            env_view(env@),
            old(cur).bits(),
            old(cur).spec_pos(),
        ) {
            Ok(vp) => r matches Ok(v) && v@ == vp.0 && final(cur).spec_pos() == vp.1,
            Err(e) => r matches Err(er) && er@ == e,
        },
    decreases *k, 0nat, 0nat,
{
    match k {
        FieldKind::Scalar { width } => match read_scalar(cur, *width, bo) {
            Ok(v) => Ok(Value::Uint(v)),
            Err(ke) => Err(PacketRsError::new(ke)),
        },
        FieldKind::Boolean => match cur.read_bool() {
            Ok(b) => Ok(Value::Bool(b)),
            Err(e) => Err(PacketRsError::new(PacketRsErrorKind::Exhausted)),
        },
        FieldKind::Record(rec) => {
            let rem = cur.remaining();
            match eval_exprs(ctxe, env, rem) {
                Err(ke) => Err(PacketRsError::new(ke)),
                Ok(vals) => decode_record(rd, rec, &vals, cur),
            }
        },
        FieldKind::Union(u) => {
            let rem = cur.remaining();
            match eval_exprs(ctxe, env, rem) {
                Err(ke) => Err(PacketRsError::new(ke)),
                Ok(vals) => decode_union(rd, u, &vals, cur),
            }
        },
        FieldKind::ListCount { elem, count } => {
            let rem = cur.remaining();
            match eval_expr(count, env, rem) {
                Err(ke) => Err(PacketRsError::new(ke)),
                Ok(n) => match decode_count(rd, elem, bo, ctxe, env, n, cur) {
                    Ok(items) => Ok(Value::List(items)),
                    Err(e) => Err(e),
                },
            }
        },
        FieldKind::ListWhile { elem, pred } => match decode_while(
            rd,
            elem,
            pred,
            bo,
            ctxe,
            env,
            cur,
        ) {
            Ok(items) => Ok(Value::List(items)),
            Err(e) => Err(e),
        },
        FieldKind::OptionalWhen { elem, when } => {
            let rem = cur.remaining();
            match eval_pred(when, env, rem) {
                Err(ke) => Err(PacketRsError::new(ke)),
                Ok(true) => match decode_kind(rd, elem, bo, ctxe, env, cur) {
                    Ok(v) => Ok(Value::Present(Box::new(v))),
                    Err(e) => Err(e),
                },
                Ok(false) => Ok(Value::Absent),
            }
        },
        FieldKind::Assigned(e) => {
            let rem = cur.remaining();
            match eval_expr(e, env, rem) {
                Err(ke) => Err(PacketRsError::new(ke)),
                Ok(v) => Ok(Value::Uint(v)),
            }
        },
        FieldKind::Custom { reader } => {
            let rem = cur.remaining();
            match eval_exprs(ctxe, env, rem) {
                Err(ke) => Err(PacketRsError::new(ke)),
                Ok(vals) => rd.read(reader, &vals, cur),
            }
        },
    }
}

/// Read exactly `n` repeated elements.
pub(crate) fn decode_count<R: PacketrsRead>(
    rd: &R,
    elem: &FieldKind,
    bo: ByteOrder,
    ctxe: &Vec<Expr>,
    env: &Env,
    n: u64,
    cur: &mut BitCursor,
) -> (r: Result<Vec<Value>, PacketRsError>)
    requires
        wf_kind(*elem, ctxe@.len()),
        old(cur).wf(),
    ensures
        final(cur).wf(),
        final(cur).bits() == old(cur).bits(),
        match spec_decode_count(
            *rd,
            *elem,
            bo,
            ctxe@,
            env_view(env@),
            n as nat,
            old(cur).bits(),
            old(cur).spec_pos(),
        ) {
            Ok(lp) => r matches Ok(items) && values_view(items@) == lp.0
                && final(cur).spec_pos() == lp.1,
            Err(e) => r matches Err(er) && er@ == e,
        },
    decreases *elem, 1nat, n,
{
    if n == 0 {
        let empty: Vec<Value> = Vec::new();
        proof {
            assert(values_view(empty@) =~= Seq::<SpecValue>::empty());
        }
        Ok(empty)
    } else {
        match decode_kind(rd, elem, bo, ctxe, env, cur) {
            Err(e) => Err(e),
            Ok(v) => {
                let ghost v_spec = v@;
                match decode_count(rd, elem, bo, ctxe, env, n - 1, cur) {
                    Err(e) => Err(e),
                    Ok(mut rest) => {
                        let ghost rest0 = rest@;
                        rest.insert(0, v);
                        proof {
                            let s2 = rest@;
                            assert(s2[0] == v);
                            assert(s2.subrange(1, s2.len() as int) =~= rest0);
                        }
                        Ok(rest)
                    },
                }
            },
        }
    }
}

/// Read repeated elements while the predicate holds, re-evaluating it over
/// the ambient scope before each element.
fn decode_while<R: PacketrsRead>(
    rd: &R,
    elem: &FieldKind,
    pred: &Pred,
    bo: ByteOrder,
    ctxe: &Vec<Expr>,
    env: &Env,
    cur: &mut BitCursor,
) -> (r: Result<Vec<Value>, PacketRsError>)
    requires
        wf_kind(*elem, ctxe@.len()),
        old(cur).wf(),
    ensures
        final(cur).wf(),
        final(cur).bits() == old(cur).bits(),
        match spec_decode_while(
            *rd,
            *elem,
            *pred,
            bo,
            ctxe@,
            env_view(env@),
            old(cur).bits(),
            old(cur).spec_pos(),
        ) {
            Ok(lp) => r matches Ok(items) && values_view(items@) == lp.0
                && final(cur).spec_pos() == lp.1,
            Err(e) => r matches Err(er) && er@ == e,
        },
    decreases *elem, 1nat, old(cur).bits().len() - old(cur).spec_pos(),
{
    let rem = cur.remaining();
    match eval_pred(pred, env, rem) {
        Err(ke) => Err(PacketRsError::new(ke)),
        Ok(false) => {
            let empty: Vec<Value> = Vec::new();
            proof {
                assert(values_view(empty@) =~= Seq::<SpecValue>::empty());
            }
            Ok(empty)
        },
        Ok(true) => {
            let p0 = cur.position();
            match decode_kind(rd, elem, bo, ctxe, env, cur) {
                Err(e) => Err(e),
                Ok(v) => {
                    let p1 = cur.position();
                    if p1 <= p0 {
                        Err(PacketRsError::new(PacketRsErrorKind::NoProgress))
                    } else {
                        let ghost v_spec = v@;
                        match decode_while(rd, elem, pred, bo, ctxe, env, cur) {
                            Err(e) => Err(e),
                            Ok(mut rest) => {
                                let ghost rest0 = rest@;
                                rest.insert(0, v);
                                proof {
                                    let s2 = rest@;
                                    assert(s2[0] == v);
                                    assert(s2.subrange(1, s2.len() as int) =~= rest0);
                                }
                                Ok(rest)
                            },
                        }
                    }
                },
            }
        },
    }
}

/// Scan the variants at indices `i` on; the first whose pattern matches
/// the discriminant decodes its fields.
fn decode_variants<R: PacketrsRead>(
    rd: &R,
    vs: &Vec<VariantSpec>,
    i: usize,
    ubo: Option<ByteOrder>,
    key: u64,
    env: &Env,
    cur: &mut BitCursor,
) -> (r: Result<Value, PacketRsError>)
    requires
        i <= vs@.len(),
        wf_variants(vs@.subrange(i as int, vs@.len() as int)),
        old(cur).wf(),
    ensures
        final(cur).wf(),
        final(cur).bits() == old(cur).bits(),
        match spec_decode_variants(
            *rd,
            vs@.subrange(i as int, vs@.len() as int),
            ubo,
            key,
            env_view(env@),
            old(cur).bits(),
            old(cur).spec_pos(),
        ) {
            Ok(vp) => r matches Ok(v) && v@ == vp.0 && final(cur).spec_pos() == vp.1,
            Err(e) => r matches Err(er) && er@ == e,
        },
    decreases vs@.subrange(i as int, vs@.len() as int), 0nat, 0nat,
{
    let ghost tail = vs@.subrange(i as int, vs@.len() as int);
    if i == vs.len() {
        Err(PacketRsError::new(PacketRsErrorKind::UnknownVariant { key }))
    } else {
        proof {
            assert(tail[0] == vs@[i as int]);
            assert(tail.subrange(1, tail.len() as int) =~= vs@.subrange(i + 1, vs@.len() as int));
            assert(vs@[i as int].fields@.subrange(0, vs@[i as int].fields@.len() as int)
                =~= vs@[i as int].fields@);
            assert(wf_variant(tail[0]));
            assert(wf_fields(vs@[i as int].fields@)) by {
                reveal_with_fuel(wf_variant, 2);
            }
        }
        let variant = &vs[i];
        match match_pattern(&variant.pattern, key, env, cur) {
            Err(ke) => Err(PacketRsError::new(ke)),
            Ok(false) => decode_variants(rd, vs, i + 1, ubo, key, env, cur),
            Ok(true) => {
                let mut env2 = clone_env(env);
                match &variant.pattern {
                    VariantPattern::Guarded { bind, cond } => {
                        env2.push((bind.clone(), key));
                        proof {
                            assert(env_view(env2@) =~= env_view(env@).push((bind@, key)));
                        }
                    },
                    _ => {},
                }
                let vbo = variant_order(variant.byte_order, ubo);
                match decode_fields(rd, &variant.fields, 0, vbo, &mut env2, cur) {
                    Ok(nvs) => Ok(Value::Variant { name: variant.name.clone(), fields: nvs }),
                    Err(e) => Err(e.annotate(&variant.name)),
                }
            },
        }
    }
}

} // verus!
