use vstd::prelude::*;

verus! {

use crate::cursor::BitCursor;
use crate::error::PacketRsError;
use crate::error::PacketRsErrorKind;
use crate::error::SpecError;
use crate::error::SpecErrorKind;
use crate::value::SpecValue;
use crate::value::Value;
use crate::expr::Env;
use crate::expr::Expr;
use crate::expr::env_view;
use crate::schema::ByteOrder;
use crate::schema::FieldKind;

/// Custom read logic that a schema can delegate to by name.  A reader set
/// maps reader names to arbitrary decode functions over the cursor and the
/// caller-supplied context values; the decode algorithm uses a named
/// reader's outcome verbatim, wrapped with the delegating field's name.
///
/// `model` is the implementation's own statement of each reader's outcome,
/// as a function of the reader's name, the context values and the stream
/// alone; `read` must behave exactly as `model` says.  A reader may consume
/// bits but never changes the stream's contents.
pub trait PacketrsRead: Sized {
    /// What the named reader yields on the given stream: a decoded value
    /// and the position after it, or a failure.
    spec fn model(&self, name: Seq<char>, ctx: Seq<u64>, bits: Seq<bool>, pos: nat) -> Result<
        (SpecValue, nat),
        SpecError,
    >;

    /// Run the named reader on the cursor with the given context values.
    fn read(&self, name: &String, ctx: &Vec<u64>, cur: &mut BitCursor) -> (r: Result<
        Value,
        PacketRsError,
    >)
        requires
            old(cur).wf(),
        ensures
            final(cur).wf(),
            final(cur).bits() == old(cur).bits(),
            match self.model(name@, ctx@, old(cur).bits(), old(cur).spec_pos()) {
                Ok(vp) => r matches Ok(v) && v@ == vp.0 && final(cur).spec_pos() == vp.1,
                Err(e) => r matches Err(er) && er@ == e,
            },
    ;
}

/// A reader set offering one custom reader, `raw_bytes`: it reads as many
/// whole bytes as its first context value says and yields them as a list
/// of scalars.  Any other name fails with an `UnknownReader` error.
pub struct RawBytesReader;

impl PacketrsRead for RawBytesReader {
    open spec fn model(&self, name: Seq<char>, ctx: Seq<u64>, bits: Seq<bool>, pos: nat) -> Result<
        (SpecValue, nat),
        SpecError,
    > {
        if name == "raw_bytes"@ {
            if ctx.len() == 0 {
                Err(SpecError { kind: SpecErrorKind::ContextArity, trail: Seq::empty() })
            } else {
                match crate::decode::spec_decode_count(
                    NoReaders,
                    FieldKind::Scalar { width: 8 },
                    ByteOrder::NetworkOrder,
                    Seq::empty(),
                    Seq::empty(),
                    ctx[0] as nat,
                    bits,
                    pos,
                ) {
                    Ok(lp) => Ok((SpecValue::List(lp.0), lp.1)),
                    Err(e) => Err(e),
                }
            }
        } else {
            Err(
                SpecError {
                    kind: SpecErrorKind::UnknownReader { name },
                    trail: Seq::empty(),
                },
            )
        }
    }

    fn read(&self, name: &String, ctx: &Vec<u64>, cur: &mut BitCursor) -> (r: Result<
        Value,
        PacketRsError,
    >) {
        let expected = String::from_str("raw_bytes");
        if *name == expected {
            if ctx.len() == 0 {
                Err(PacketRsError::new(PacketRsErrorKind::ContextArity))
            } else {
                let elem = FieldKind::Scalar { width: 8 };
                let ctxe: Vec<Expr> = Vec::new();
                let env: Env = Vec::new();
                proof {
                    assert(ctxe@ =~= Seq::<Expr>::empty());
                    assert(env_view(env@) =~= Seq::<(Seq<char>, u64)>::empty());
                }
                match crate::decode::decode_count(
                    &NoReaders,
                    &elem,
                    ByteOrder::NetworkOrder,
                    &ctxe,
                    &env,
                    ctx[0],
                    cur,
                ) {
                    Ok(items) => Ok(Value::List(items)),
                    Err(e) => Err(e),
                }
            }
        } else {
            Err(PacketRsError::new(PacketRsErrorKind::UnknownReader { name: name.clone() }))
        }
    }
}

/// The empty reader set: it provides no reader, so every delegation fails
/// with an `UnknownReader` error and leaves the cursor untouched.
pub struct NoReaders;

impl PacketrsRead for NoReaders {
    open spec fn model(&self, name: Seq<char>, ctx: Seq<u64>, bits: Seq<bool>, pos: nat) -> Result<
        (SpecValue, nat),
        SpecError,
    > {
        Err(
            SpecError {
                kind: SpecErrorKind::UnknownReader { name },
                trail: Seq::empty(),
            },
        )
    }

    fn read(&self, name: &String, ctx: &Vec<u64>, cur: &mut BitCursor) -> (r: Result<
        Value,
        PacketRsError,
    >) {
        Err(PacketRsError::new(PacketRsErrorKind::UnknownReader { name: name.clone() }))
    }
}

} // verus!
