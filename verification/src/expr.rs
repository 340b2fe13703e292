use vstd::prelude::*;

verus! {

use crate::error::PacketRsErrorKind;
use crate::error::SpecErrorKind;

/// A scalar-valued expression of the schema language.  Counts, discriminant
/// keys, caller-context arguments, fixed values and assigned values are all
/// written in this form and evaluated over the bindings in scope.
#[derive(Debug)]
pub enum Expr {
    /// A literal value.
    Const(u64),
    /// A context binding or an already decoded scalar field, by name.
    Var(String),
    /// The number of bits the cursor has left to read.
    Remaining,
    /// Checked addition; leaving the 64-bit range is an evaluation error.
    Add(Box<Expr>, Box<Expr>),
    /// Checked subtraction; going below zero is an evaluation error.
    Sub(Box<Expr>, Box<Expr>),
    /// Checked multiplication; leaving the 64-bit range is an evaluation error.
    Mul(Box<Expr>, Box<Expr>),
}

/// A boolean-valued expression of the schema language: presence and
/// continuation predicates, assertion predicates and pattern guards.
#[derive(Debug)]
pub enum Pred {
    Eq(Expr, Expr),
    Ne(Expr, Expr),
    Lt(Expr, Expr),
    Le(Expr, Expr),
    Gt(Expr, Expr),
    Ge(Expr, Expr),
    Not(Box<Pred>),
    /// Short-circuit conjunction: the right side is evaluated only when the
    /// left side holds.
    And(Box<Pred>, Box<Pred>),
    /// Short-circuit disjunction: the right side is evaluated only when the
    /// left side does not hold.
    Or(Box<Pred>, Box<Pred>),
}

/// The bindings in scope while a schema decodes: context values first, then
/// each already decoded scalar field, in order.  A later binding of the same
/// name shadows an earlier one.
pub type Env = Vec<(String, u64)>;

/// The mathematical value of an environment.
pub open spec fn env_view(env: Seq<(String, u64)>) -> Seq<(Seq<char>, u64)> {
    env.map_values(|p: (String, u64)| (p.0@, p.1))
}

/// Look a name up in an environment; the most recent binding wins.
pub open spec fn spec_lookup(env: Seq<(Seq<char>, u64)>, name: Seq<char>) -> Option<u64>
    decreases env.len(),
{
    if env.len() == 0 {
        None
    } else if env.last().0 == name {
        Some(env.last().1)
    } else {
        spec_lookup(env.drop_last(), name)
    }
}

/// What a scalar expression evaluates to, over the given bindings and the
/// given number of remaining bits.
pub open spec fn spec_eval_expr(e: Expr, env: Seq<(Seq<char>, u64)>, rem: nat) -> Result<
    u64,
    SpecErrorKind,
>
    decreases e,
{
    match e {
        Expr::Const(c) => Ok(c),
        Expr::Var(x) => match spec_lookup(env, x@) {
            Some(v) => Ok(v),
            None => Err(SpecErrorKind::UnboundVar { name: x@ }),
        },
        Expr::Remaining => if rem <= u64::MAX {
            Ok(rem as u64)
        } else {
            Err(SpecErrorKind::Overflow)
        },
        Expr::Add(a, b) => match spec_eval_expr(*a, env, rem) {
            Ok(x) => match spec_eval_expr(*b, env, rem) {
                Ok(y) => if x + y <= u64::MAX {
                    Ok((x + y) as u64)
                } else {
                    Err(SpecErrorKind::Overflow)
                },
                Err(k) => Err(k),
            },
            Err(k) => Err(k),
        },
        Expr::Sub(a, b) => match spec_eval_expr(*a, env, rem) {
            Ok(x) => match spec_eval_expr(*b, env, rem) {
                Ok(y) => if x >= y {
                    Ok((x - y) as u64)
                } else {
                    Err(SpecErrorKind::Overflow)
                },
                Err(k) => Err(k),
            },
            Err(k) => Err(k),
        },
        Expr::Mul(a, b) => match spec_eval_expr(*a, env, rem) {
            Ok(x) => match spec_eval_expr(*b, env, rem) {
                Ok(y) => if x * y <= u64::MAX {
                    Ok((x * y) as u64)
                } else {
                    Err(SpecErrorKind::Overflow)
                },
                Err(k) => Err(k),
            },
            Err(k) => Err(k),
        },
    }
}

/// What a predicate evaluates to; conjunction and disjunction short-circuit
/// exactly as the run-time evaluator does.
pub open spec fn spec_eval_pred(p: Pred, env: Seq<(Seq<char>, u64)>, rem: nat) -> Result<
    bool,
    SpecErrorKind,
>
    decreases p,
{
    match p {
        Pred::Eq(a, b) => spec_eval_cmp(a, b, env, rem, CmpOp::Eq),
        Pred::Ne(a, b) => spec_eval_cmp(a, b, env, rem, CmpOp::Ne),
        Pred::Lt(a, b) => spec_eval_cmp(a, b, env, rem, CmpOp::Lt),
        Pred::Le(a, b) => spec_eval_cmp(a, b, env, rem, CmpOp::Le),
        Pred::Gt(a, b) => spec_eval_cmp(a, b, env, rem, CmpOp::Gt),
        Pred::Ge(a, b) => spec_eval_cmp(a, b, env, rem, CmpOp::Ge),
        Pred::Not(q) => match spec_eval_pred(*q, env, rem) {
            Ok(v) => Ok(!v),
            Err(k) => Err(k),
        },
        Pred::And(a, b) => match spec_eval_pred(*a, env, rem) {
            Ok(true) => spec_eval_pred(*b, env, rem),
            Ok(false) => Ok(false),
            Err(k) => Err(k),
        },
        Pred::Or(a, b) => match spec_eval_pred(*a, env, rem) {
            Ok(true) => Ok(true),
            Ok(false) => spec_eval_pred(*b, env, rem),
            Err(k) => Err(k),
        },
    }
}

/// The comparison operators shared by the predicate forms.
#[derive(Debug, Clone, Copy, PartialEq, Eq, Structural)]
pub enum CmpOp {
    Eq,
    Ne,
    Lt,
    Le,
    Gt,
    Ge,
}

/// A comparison applied to two evaluated operands.
pub open spec fn spec_cmp(op: CmpOp, x: u64, y: u64) -> bool {
    match op {
        CmpOp::Eq => x == y,
        CmpOp::Ne => x != y,
        CmpOp::Lt => x < y,
        CmpOp::Le => x <= y,
        CmpOp::Gt => x > y,
        CmpOp::Ge => x >= y,
    }
}

/// Evaluate both operands of a comparison, left side first.
pub open spec fn spec_eval_cmp(
    a: Expr,
    b: Expr,
    env: Seq<(Seq<char>, u64)>,
    rem: nat,
    op: CmpOp,
) -> Result<bool, SpecErrorKind> {
    match spec_eval_expr(a, env, rem) {
        Ok(x) => match spec_eval_expr(b, env, rem) {
            Ok(y) => Ok(spec_cmp(op, x, y)),
            Err(k) => Err(k),
        },
        Err(k) => Err(k),
    }
}

/// Look a name up among the bindings at indices below `i`, latest first.
fn lookup_prefix(env: &Env, name: &String, i: usize) -> (r: Option<u64>)
    requires
        i <= env@.len(),
    ensures
        r == spec_lookup(env_view(env@).take(i as int), name@),
    decreases i,
{
    proof {
        assert(env_view(env@).len() == env@.len());
    }
    if i == 0 {
        proof {
            assert(env_view(env@).take(0) =~= Seq::<(Seq<char>, u64)>::empty());
        }
        None
    } else {
        let ghost pre = env_view(env@).take(i as int);
        proof {
            assert(pre.last() == env_view(env@)[i - 1]);
            assert(env_view(env@)[i - 1] == (env@[i - 1].0@, env@[i - 1].1));
            assert(pre.drop_last() =~= env_view(env@).take(i - 1));
        }
        let entry: &(String, u64) = &env[i - 1];
        if entry.0 == *name {
            Some(entry.1)
        } else {
            lookup_prefix(env, name, i - 1)
        }
    }
}

/// Look a name up in the environment; the most recent binding wins.
pub fn lookup(env: &Env, name: &String) -> (r: Option<u64>)
    ensures
        r == spec_lookup(env_view(env@), name@),
{
    proof {
        assert(env_view(env@).take(env@.len() as int) =~= env_view(env@));
    }
    lookup_prefix(env, name, env.len())
}

/// Evaluate a scalar expression over the environment, with `rem` bits left
/// on the cursor.
pub fn eval_expr(e: &Expr, env: &Env, rem: u64) -> (r: Result<u64, PacketRsErrorKind>)
    ensures
        match spec_eval_expr(*e, env_view(env@), rem as nat) {
            Ok(v) => r matches Ok(x) && x == v,
            Err(k) => r matches Err(ke) && ke@ == k,
        },
    decreases *e,
{
    match e {
        Expr::Const(c) => Ok(*c),
        Expr::Var(x) => match lookup(env, x) {
            Some(v) => Ok(v),
            None => Err(PacketRsErrorKind::UnboundVar { name: x.clone() }),
        },
        Expr::Remaining => Ok(rem),
        Expr::Add(a, b) => {
            let x = eval_expr(a, env, rem)?;
            let y = eval_expr(b, env, rem)?;
            match x.checked_add(y) {
                Some(v) => Ok(v),
                None => Err(PacketRsErrorKind::Overflow),
            }
        },
        Expr::Sub(a, b) => {
            let x = eval_expr(a, env, rem)?;
            let y = eval_expr(b, env, rem)?;
            match x.checked_sub(y) {
                Some(v) => Ok(v),
                None => Err(PacketRsErrorKind::Overflow),
            }
        },
        Expr::Mul(a, b) => {
            let x = eval_expr(a, env, rem)?;
            let y = eval_expr(b, env, rem)?;
            match x.checked_mul(y) {
                Some(v) => Ok(v),
                None => Err(PacketRsErrorKind::Overflow),
            }
        },
    }
}

/// Evaluate a predicate over the environment, with `rem` bits left on the
/// cursor.
pub fn eval_pred(p: &Pred, env: &Env, rem: u64) -> (r: Result<bool, PacketRsErrorKind>)
    ensures
        match spec_eval_pred(*p, env_view(env@), rem as nat) {
            Ok(v) => r matches Ok(x) && x == v,
            Err(k) => r matches Err(ke) && ke@ == k,
        },
    decreases *p,
{
    match p {
        Pred::Eq(a, b) => eval_cmp(a, b, env, rem, CmpOp::Eq),
        Pred::Ne(a, b) => eval_cmp(a, b, env, rem, CmpOp::Ne),
        Pred::Lt(a, b) => eval_cmp(a, b, env, rem, CmpOp::Lt),
        Pred::Le(a, b) => eval_cmp(a, b, env, rem, CmpOp::Le),
        Pred::Gt(a, b) => eval_cmp(a, b, env, rem, CmpOp::Gt),
        Pred::Ge(a, b) => eval_cmp(a, b, env, rem, CmpOp::Ge),
        Pred::Not(q) => {
            let v = eval_pred(q, env, rem)?;
            Ok(!v)
        },
        Pred::And(a, b) => {
            let v = eval_pred(a, env, rem)?;
            if v {
                eval_pred(b, env, rem)
            } else {
                Ok(false)
            }
        },
        Pred::Or(a, b) => {
            let v = eval_pred(a, env, rem)?;
            if v {
                Ok(true)
            } else {
                eval_pred(b, env, rem)
            }
        },
    }
}

/// Evaluate the two operands of a comparison and apply it.
fn eval_cmp(a: &Expr, b: &Expr, env: &Env, rem: u64, op: CmpOp) -> (r: Result<
    bool,
    PacketRsErrorKind,
>)
    ensures
        match spec_eval_cmp(*a, *b, env_view(env@), rem as nat, op) {
            Ok(v) => r matches Ok(x) && x == v,
            Err(k) => r matches Err(ke) && ke@ == k,
        },
{
    let x = eval_expr(a, env, rem)?;
    let y = eval_expr(b, env, rem)?;
    let v = match op {
        CmpOp::Eq => x == y,
        CmpOp::Ne => x != y,
        CmpOp::Lt => x < y,
        CmpOp::Le => x <= y,
        CmpOp::Gt => x > y,
        CmpOp::Ge => x >= y,
    };
    Ok(v)
}

} // verus!
