//! Schema-driven binary packet decoding.
//!
//! A packet format is described by a runtime schema: an ordered sequence of
//! field specifications for a record, or a discriminant-dispatched list of
//! variants for a tagged union.  A decode call interprets the schema over a
//! bit-addressable cursor, threading caller-supplied context values into
//! nested schemas, and yields either a fully decoded value or a single
//! failure annotated with the trail of field names leading to its cause.

pub mod cursor;
pub mod decode;
pub mod error;
pub mod expr;
pub mod laws;
pub mod reader;
pub mod schema;
pub mod value;

pub use cursor::BitCursor;
pub use cursor::BitCursorError;
pub use decode::decode_field;
pub use decode::decode_record;
pub use decode::decode_union;
pub use error::PacketRsError;
pub use error::PacketRsErrorKind;
pub use error::PacketRsResult;
pub use expr::Expr;
pub use expr::Pred;
pub use expr::eval_expr;
pub use expr::eval_pred;
pub use expr::lookup;
pub use reader::NoReaders;
pub use reader::RawBytesReader;
pub use reader::PacketrsRead;
pub use schema::ByteOrder;
pub use schema::FieldKind;
pub use schema::FieldSpec;
pub use schema::RecordSpec;
pub use schema::UnionSpec;
pub use schema::VariantPattern;
pub use schema::VariantSpec;
pub use value::Value;
