use vstd::prelude::*;

verus! {

use crate::decode::err0;
use crate::decode::rem_of;
use crate::decode::spec_bind_ctx;
use crate::decode::spec_bind_value;
use crate::decode::spec_decode_count;
use crate::decode::spec_decode_field;
use crate::decode::spec_decode_fields;
use crate::decode::spec_decode_kind;
use crate::decode::spec_decode_record;
use crate::decode::spec_decode_variants;
use crate::decode::spec_decode_while;
use crate::decode::spec_eval_exprs;
use crate::decode::spec_match_pattern;
use crate::decode::spec_read_scalar;
use crate::decode::spec_resolve_order;
use crate::decode::spec_variant_order;
use crate::error::SpecError;
use crate::error::SpecErrorKind;
use crate::error::spec_annotate;
use crate::expr::Expr;
use crate::expr::Pred;
use crate::expr::spec_eval_expr;
use crate::expr::spec_eval_pred;
use crate::expr::spec_lookup;
use crate::reader::PacketrsRead;
use crate::schema::ByteOrder;
use crate::schema::FieldKind;
use crate::schema::FieldSpec;
use crate::schema::RecordSpec;
use crate::schema::VariantPattern;
use crate::schema::VariantSpec;
use crate::value::SpecValue;

/// A field that is nothing but a fixed-width scalar read: no context, no
/// fixed-value check, no assertion.
pub open spec fn plain_scalar_field(f: FieldSpec) -> bool {
    &&& f.kind matches FieldKind::Scalar { width } && 1 <= width <= 64
    &&& f.ctx@.len() == 0
    &&& f.fixed is None
    &&& f.assertion is None
}

/// The bit width a field's scalar read consumes.
pub open spec fn field_width(f: FieldSpec) -> nat {
    match f.kind {
        FieldKind::Scalar { width } => width as nat,
        _ => 0,
    }
}

/// Every field of the sequence is a plain fixed-width scalar.
pub open spec fn all_plain_scalars(fs: Seq<FieldSpec>) -> bool {
    forall|i: int| 0 <= i < fs.len() ==> plain_scalar_field(#[trigger] fs[i])
}

/// The sum of the fields' bit widths.
pub open spec fn total_width(fs: Seq<FieldSpec>) -> nat
    decreases fs.len(),
{
    if fs.len() == 0 {
        0
    } else {
        field_width(fs[0]) + total_width(fs.subrange(1, fs.len() as int))
    }
}

/// Decoding is a mathematical function of the reader set, the schema, the
/// context and the stream: there is no hidden state, so the same byte
/// sequence decoded twice against the same schema yields the same result,
/// value or failure.  The run-time decoder's contract equates its outcome
/// and final position with this function of its starting state, which is
/// what pins the behaviour down.
pub proof fn lemma_decode_deterministic<R: PacketrsRead>(
    rd: R,
    rec: RecordSpec,
    ctx: Seq<u64>,
    bits: Seq<bool>,
    pos: nat,
)
    ensures
        spec_decode_record(rd, rec, ctx, bits, pos) == spec_decode_record(rd, rec, ctx, bits, pos),
{
}

/// What one plain scalar field decodes to: exactly its scalar read, with a
/// read failure annotated with the field's name.
pub proof fn lemma_plain_scalar_field<R: PacketrsRead>(
    rd: R,
    f: FieldSpec,
    dbo: Option<ByteOrder>,
    env: Seq<(Seq<char>, u64)>,
    bits: Seq<bool>,
    pos: nat,
)
    requires
        plain_scalar_field(f),
    ensures
        spec_decode_field(rd, f, dbo, env, bits, pos) == (match spec_read_scalar(
            bits,
            pos,
            f.kind->width,
            spec_resolve_order(f.byte_order, dbo),
        ) {
            Ok(vp) => Ok::<(SpecValue, nat), SpecError>((SpecValue::Uint(vp.0), vp.1)),
            Err(k) => Err::<(SpecValue, nat), SpecError>(spec_annotate(err0(k), f.name@)),
        }),
{
    reveal_with_fuel(spec_decode_field, 2);
    reveal_with_fuel(spec_decode_kind, 2);
}

/// Exact consumption: a record of plain fixed-width scalar fields consumes
/// exactly the sum of their bit widths, so on success the position after
/// the decode is the position before plus that sum; and when that many
/// bits are available the decode always succeeds.
pub proof fn lemma_fields_exact_consumption<R: PacketrsRead>(
    rd: R,
    fs: Seq<FieldSpec>,
    dbo: Option<ByteOrder>,
    env: Seq<(Seq<char>, u64)>,
    bits: Seq<bool>,
    pos: nat,
)
    requires
        all_plain_scalars(fs),
    ensures
        spec_decode_fields(rd, fs, dbo, env, bits, pos) matches Ok(fp) ==> fp.1 == pos
            + total_width(fs),
        pos + total_width(fs) <= bits.len() ==> spec_decode_fields(
            rd,
            fs,
            dbo,
            env,
            bits,
            pos,
        ) is Ok,
    decreases fs.len(),
{
    reveal_with_fuel(spec_decode_fields, 2);
    if fs.len() > 0 {
        let f = fs[0];
        assert(plain_scalar_field(f));
        let w = f.kind->width;
        let bo = spec_resolve_order(f.byte_order, dbo);
        lemma_plain_scalar_field(rd, f, dbo, env, bits, pos);
        let rest = fs.subrange(1, fs.len() as int);
        match spec_read_scalar(bits, pos, w, bo) {
            Ok(vp) => {
                let env2 = spec_bind_value(env, f.name@, SpecValue::Uint(vp.0));
                lemma_fields_exact_consumption(rd, rest, dbo, env2, bits, vp.1);
            },
            Err(k) => {},
        }
    }
}

/// Exact consumption at the record level: decoding a record of N plain
/// fixed-width scalar fields moves the cursor forward by exactly the sum
/// of the field widths, and succeeds whenever that many bits remain.
pub proof fn lemma_record_exact_consumption<R: PacketrsRead>(
    rd: R,
    rec: RecordSpec,
    ctx: Seq<u64>,
    bits: Seq<bool>,
    pos: nat,
)
    requires
        all_plain_scalars(rec.fields@),
        rec.reader is None,
        ctx.len() == rec.required_ctx@.len(),
    ensures
        spec_decode_record(rd, rec, ctx, bits, pos) matches Ok(vp) ==> vp.1 == pos + total_width(
            rec.fields@,
        ),
        pos + total_width(rec.fields@) <= bits.len() ==> spec_decode_record(
            rd,
            rec,
            ctx,
            bits,
            pos,
        ) is Ok,
{
    let env = spec_bind_ctx(rec.required_ctx@, ctx);
    lemma_fields_exact_consumption(rd, rec.fields@, rec.byte_order, env, bits, pos);
}

/// Optional absence: when the `when` predicate of an optional field is
/// false, the field decodes to "absent", no error is raised, and the
/// position is unchanged, so the cursor does not move.
pub proof fn lemma_optional_absence<R: PacketrsRead>(
    rd: R,
    f: FieldSpec,
    dbo: Option<ByteOrder>,
    env: Seq<(Seq<char>, u64)>,
    bits: Seq<bool>,
    pos: nat,
)
    requires
        f.kind matches FieldKind::OptionalWhen { elem, when } && spec_eval_pred(
            when,
            env,
            rem_of(bits, pos),
        ) == Ok::<bool, SpecErrorKind>(false),
        f.fixed is None,
        f.assertion is None,
    ensures
        spec_decode_field(rd, f, dbo, env, bits, pos) == Ok::<(SpecValue, nat), SpecError>(
            (SpecValue::Absent, pos),
        ),
{
    reveal_with_fuel(spec_decode_field, 2);
    reveal_with_fuel(spec_decode_kind, 2);
}

/// Fixed-value enforcement: a scalar field with a declared fixed value
/// succeeds exactly when the value read equals it; any other value fails
/// with a mismatch error naming the field, the expected value and the
/// actual value.
pub proof fn lemma_fixed_value_enforcement<R: PacketrsRead>(
    rd: R,
    f: FieldSpec,
    c: u64,
    dbo: Option<ByteOrder>,
    env: Seq<(Seq<char>, u64)>,
    bits: Seq<bool>,
    pos: nat,
)
    requires
        f.kind matches FieldKind::Scalar { width } && 1 <= width <= 64,
        f.ctx@.len() == 0,
        f.fixed == Some(Expr::Const(c)),
        f.assertion is None,
    ensures
        spec_decode_field(rd, f, dbo, env, bits, pos) == (match spec_read_scalar(
            bits,
            pos,
            f.kind->width,
            spec_resolve_order(f.byte_order, dbo),
        ) {
            Ok(vp) => if vp.0 == c {
                Ok::<(SpecValue, nat), SpecError>((SpecValue::Uint(vp.0), vp.1))
            } else {
                Err::<(SpecValue, nat), SpecError>(
                    SpecError {
                        kind: SpecErrorKind::FixedMismatch { expected: c, actual: vp.0 },
                        trail: seq![f.name@],
                    },
                )
            },
            Err(k) => Err::<(SpecValue, nat), SpecError>(spec_annotate(err0(k), f.name@)),
        }),
{
    reveal_with_fuel(spec_decode_field, 2);
    reveal_with_fuel(spec_decode_kind, 2);
    match spec_read_scalar(bits, pos, f.kind->width, spec_resolve_order(f.byte_order, dbo)) {
        Ok(vp) => {
            if vp.0 != c {
                assert(spec_annotate(
                    err0(SpecErrorKind::FixedMismatch { expected: c, actual: vp.0 }),
                    f.name@,
                ).trail =~= seq![f.name@]);
            }
        },
        Err(k) => {},
    }
}

/// The environment a variant's fields decode under: a guarded pattern's
/// binding is in scope, other patterns bind nothing.
pub open spec fn guard_env(v: VariantSpec, key: u64, env: Seq<(Seq<char>, u64)>) -> Seq<
    (Seq<char>, u64),
> {
    match v.pattern {
        VariantPattern::Guarded { bind, cond } => env.push((bind@, key)),
        _ => env,
    }
}

/// Variant dispatch order: patterns are tried in declaration order and the
/// first match wins — when every variant before `i` fails to match the
/// discriminant and variant `i` matches it, the union decodes variant `i`,
/// whatever later variants' patterns would have said.
pub proof fn lemma_variant_dispatch_order<R: PacketrsRead>(
    rd: R,
    vs: Seq<VariantSpec>,
    ubo: Option<ByteOrder>,
    key: u64,
    env: Seq<(Seq<char>, u64)>,
    bits: Seq<bool>,
    pos: nat,
    i: int,
)
    requires
        0 <= i < vs.len(),
        spec_match_pattern(vs[i].pattern, key, env, bits, pos) == Ok::<bool, SpecErrorKind>(true),
        forall|j: int|
            0 <= j < i ==> spec_match_pattern(
                #[trigger] vs[j].pattern,
                key,
                env,
                bits,
                pos,
            ) == Ok::<bool, SpecErrorKind>(false),
    ensures
        spec_decode_variants(rd, vs, ubo, key, env, bits, pos) == (match spec_decode_fields(
            rd,
            vs[i].fields@,
            spec_variant_order(vs[i].byte_order, ubo),
            guard_env(vs[i], key, env),
            bits,
            pos,
        ) {
            Ok(fp) => Ok::<(SpecValue, nat), SpecError>(
                (SpecValue::Variant { name: vs[i].name@, fields: fp.0 }, fp.1),
            ),
            Err(e) => Err::<(SpecValue, nat), SpecError>(spec_annotate(e, vs[i].name@)),
        }),
    decreases i,
{
    reveal_with_fuel(spec_decode_variants, 2);
    if i > 0 {
        let rest = vs.subrange(1, vs.len() as int);
        assert(spec_match_pattern(vs[0].pattern, key, env, bits, pos) == Ok::<
            bool,
            SpecErrorKind,
        >(false));
        assert(rest[i - 1] == vs[i]);
        assert forall|j: int| 0 <= j < i - 1 implies spec_match_pattern(
            #[trigger] rest[j].pattern,
            key,
            env,
            bits,
            pos,
        ) == Ok::<bool, SpecErrorKind>(false) by {
            assert(rest[j] == vs[j + 1]);
        }
        lemma_variant_dispatch_order(rd, rest, ubo, key, env, bits, pos, i - 1);
    }
}

/// Context threading, caller side: a field that reads a nested record
/// passes the values of its context expressions, evaluated in the
/// enclosing scope, positionally to that record's decode; failures come
/// back annotated with the field's name.
pub proof fn lemma_context_threading<R: PacketrsRead>(
    rd: R,
    f: FieldSpec,
    inner: RecordSpec,
    dbo: Option<ByteOrder>,
    env: Seq<(Seq<char>, u64)>,
    bits: Seq<bool>,
    pos: nat,
    vals: Seq<u64>,
)
    requires
        f.kind matches FieldKind::Record(r) && *r == inner,
        spec_eval_exprs(f.ctx@, env, rem_of(bits, pos)) == Ok::<Seq<u64>, SpecErrorKind>(vals),
        f.fixed is None,
        f.assertion is None,
    ensures
        spec_decode_field(rd, f, dbo, env, bits, pos) == (match spec_decode_record(
            rd,
            inner,
            vals,
            bits,
            pos,
        ) {
            Ok(vp) => Ok::<(SpecValue, nat), SpecError>(vp),
            Err(e) => Err::<(SpecValue, nat), SpecError>(spec_annotate(e, f.name@)),
        }),
{
    reveal_with_fuel(spec_decode_field, 2);
    reveal_with_fuel(spec_decode_kind, 2);
}

/// Context threading, callee side: a schema's declared context names are
/// bound positionally to the caller's values, so the i-th declared name —
/// when no later parameter shadows it — looks up to exactly the i-th
/// supplied value.
pub proof fn lemma_required_ctx_binding(names: Seq<String>, vals: Seq<u64>, i: int)
    requires
        names.len() == vals.len(),
        0 <= i < names.len(),
        forall|j: int| i < j < names.len() ==> (#[trigger] names[j])@ != names[i]@,
    ensures
        spec_lookup(spec_bind_ctx(names, vals), names[i]@) == Some(vals[i]),
    decreases names.len(),
{
    let env = spec_bind_ctx(names, vals);
    assert(env.len() == names.len());
    if i == names.len() - 1 {
        assert(env.last() == (names[i]@, vals[i]));
    } else {
        assert(names[names.len() - 1]@ != names[i]@);
        assert(env.last().0 == names[names.len() - 1]@);
        assert(env.drop_last() =~= spec_bind_ctx(names.drop_last(), vals.drop_last()));
        assert forall|j: int|
            i < j < names.drop_last().len() implies (#[trigger] names.drop_last()[j])@
            != names.drop_last()[i]@ by {
            assert(names.drop_last()[j] == names[j]);
        }
        lemma_required_ctx_binding(names.drop_last(), vals.drop_last(), i);
        assert(names.drop_last()[i]@ == names[i]@);
    }
}

/// The `while` predicate as it stands before element `i`: evaluated over
/// the ambient scope, with the bits that remain once `i` elements of
/// width `w` have been read.
pub open spec fn while_pred_at(
    pred: Pred,
    env: Seq<(Seq<char>, u64)>,
    bits: Seq<bool>,
    pos: nat,
    w: nat,
    i: nat,
) -> Result<bool, SpecErrorKind> {
    spec_eval_pred(pred, env, rem_of(bits, (pos + i * w) as nat))
}

/// Count/while equivalence: over a scalar element of width `w`, a
/// `count`-repeated field whose count is `n` — with exactly that many
/// elements readable — decodes identically to a `while`-repeated field
/// whose predicate is true before each of the first `n` element reads and
/// false after the last one.
pub proof fn lemma_count_while_equivalence<R: PacketrsRead>(
    rd: R,
    elem: FieldKind,
    pred: Pred,
    bo: ByteOrder,
    ctxe: Seq<Expr>,
    env: Seq<(Seq<char>, u64)>,
    bits: Seq<bool>,
    pos: nat,
    n: nat,
    w: nat,
)
    requires
        elem matches FieldKind::Scalar { width } && w == width as nat && 1 <= width <= 64,
        pos + n * w <= bits.len(),
        forall|i: nat|
            i <= n ==> #[trigger] while_pred_at(pred, env, bits, pos, w, i) == Ok::<
                bool,
                SpecErrorKind,
            >(i < n),
    ensures
        spec_decode_while(rd, elem, pred, bo, ctxe, env, bits, pos) == spec_decode_count(
            rd,
            elem,
            bo,
            ctxe,
            env,
            n,
            bits,
            pos,
        ),
    decreases n,
{
    reveal_with_fuel(spec_decode_while, 2);
    reveal_with_fuel(spec_decode_count, 2);
    reveal_with_fuel(spec_decode_kind, 2);
    assert(while_pred_at(pred, env, bits, pos, w, 0) == Ok::<bool, SpecErrorKind>(0 < n));
    assert(pos + 0 * w == pos);
    if n > 0 {
        assert(w <= n * w) by (nonlinear_arith)
            requires
                n >= 1,
                w >= 0,
        ;
        assert(pos + w <= bits.len());
        let pos2 = (pos + w) as nat;
        assert(pos2 + (n - 1) * w <= bits.len()) by (nonlinear_arith)
            requires
                pos + n * w <= bits.len(),
                pos2 == pos + w,
                n >= 1,
                w >= 0,
        ;
        assert forall|i: nat| i <= n - 1 implies #[trigger] while_pred_at(
            pred,
            env,
            bits,
            pos2,
            w,
            i,
        ) == Ok::<bool, SpecErrorKind>(i < n - 1) by {
            assert(pos2 + i * w == pos + (i + 1) * w) by (nonlinear_arith)
                requires
                    pos2 == pos + w,
            ;
            assert(while_pred_at(pred, env, bits, pos, w, (i + 1) as nat) == Ok::<
                bool,
                SpecErrorKind,
            >(i + 1 <= n - 1));
        }
        lemma_count_while_equivalence(
            rd,
            elem,
            pred,
            bo,
            ctxe,
            env,
            bits,
            pos2,
            (n - 1) as nat,
            w,
        );
    }
}

} // verus!
