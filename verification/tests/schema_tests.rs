use packetrs::{
    decode_record, eval_expr, eval_pred, lookup, BitCursor, Expr, FieldKind, FieldSpec, NoReaders,
    Pred, RecordSpec, UnionSpec, Value, VariantPattern, VariantSpec,
};

fn field(name: &str, kind: FieldKind) -> FieldSpec {
    FieldSpec {
        name: name.to_string(),
        kind,
        ctx: vec![],
        byte_order: None,
        fixed: None,
        assertion: None,
    }
}

fn record(name: &str, fields: Vec<FieldSpec>) -> RecordSpec {
    RecordSpec {
        name: name.to_string(),
        required_ctx: vec![],
        byte_order: None,
        reader: None,
        fields,
    }
}

#[test]
fn validate_accepts_plain_schema() {
    let rec = record("ok", vec![field("a", FieldKind::Scalar { width: 8 })]);
    assert!(rec.validate());
}

#[test]
fn validate_rejects_zero_width() {
    let rec = record("bad", vec![field("a", FieldKind::Scalar { width: 0 })]);
    assert!(!rec.validate());
}

#[test]
fn validate_rejects_overwide_scalar() {
    let rec = record("bad", vec![field("a", FieldKind::Scalar { width: 65 })]);
    assert!(!rec.validate());
}

#[test]
fn validate_rejects_context_arity_mismatch() {
    // The nested schema requires one context value, the field passes none:
    // a schema-definition error caught at composition time.
    let inner = RecordSpec {
        name: "inner".to_string(),
        required_ctx: vec!["size".to_string()],
        byte_order: None,
        reader: None,
        fields: vec![field("x", FieldKind::Scalar { width: 8 })],
    };
    let rec = record("outer", vec![field("nested", FieldKind::Record(Box::new(inner)))]);
    assert!(!rec.validate());
}

#[test]
fn validate_accepts_matching_context_arity() {
    let inner = RecordSpec {
        name: "inner".to_string(),
        required_ctx: vec!["size".to_string()],
        byte_order: None,
        reader: None,
        fields: vec![field("x", FieldKind::Scalar { width: 8 })],
    };
    let mut nested = field("nested", FieldKind::Record(Box::new(inner)));
    nested.ctx = vec![Expr::Const(1)];
    let rec = record("outer", vec![nested]);
    assert!(rec.validate());
}

#[test]
fn validate_rejects_context_on_scalar() {
    // Context expressions make no sense on a plain scalar read.
    let mut f = field("x", FieldKind::Scalar { width: 8 });
    f.ctx = vec![Expr::Const(1)];
    let rec = record("bad", vec![f]);
    assert!(!rec.validate());
}

#[test]
fn validate_checks_union_variants() {
    let u = UnionSpec {
        name: "u".to_string(),
        required_ctx: vec!["k".to_string()],
        byte_order: None,
        reader: None,
        key: Expr::Var("k".to_string()),
        variants: vec![VariantSpec {
            name: "V".to_string(),
            pattern: VariantPattern::Literal(0),
            byte_order: None,
            fields: vec![field("bad", FieldKind::Scalar { width: 0 })],
        }],
    };
    assert!(!u.validate());
}

#[test]
fn eval_expr_arithmetic() {
    let env: Vec<(String, u64)> = vec![("a".to_string(), 6)];
    let e = Expr::Mul(
        Box::new(Expr::Var("a".to_string())),
        Box::new(Expr::Sub(Box::new(Expr::Const(9)), Box::new(Expr::Const(2)))),
    );
    assert_eq!(eval_expr(&e, &env, 0).unwrap(), 42);
}

#[test]
fn eval_expr_remaining() {
    let env: Vec<(String, u64)> = vec![];
    assert_eq!(eval_expr(&Expr::Remaining, &env, 17).unwrap(), 17);
}

#[test]
fn eval_sub_underflow_is_overflow_error() {
    let env: Vec<(String, u64)> = vec![];
    let e = Expr::Sub(Box::new(Expr::Const(1)), Box::new(Expr::Const(2)));
    assert!(eval_expr(&e, &env, 0).is_err());
}

#[test]
fn eval_pred_short_circuits() {
    // The right side of a conjunction is not evaluated when the left side
    // is false, so its unbound variable raises no error.
    let env: Vec<(String, u64)> = vec![];
    let p = Pred::And(
        Box::new(Pred::Lt(Expr::Const(2), Expr::Const(1))),
        Box::new(Pred::Eq(Expr::Var("missing".to_string()), Expr::Const(0))),
    );
    assert_eq!(eval_pred(&p, &env, 0).unwrap(), false);
}

#[test]
fn lookup_latest_binding_wins() {
    // A later binding of the same name shadows an earlier one.
    let env: Vec<(String, u64)> = vec![("x".to_string(), 1), ("x".to_string(), 2)];
    assert_eq!(lookup(&env, &"x".to_string()), Some(2));
    assert_eq!(lookup(&env, &"y".to_string()), None);
}

#[test]
fn later_fields_shadow_context() {
    // A decoded field with the same name as a context binding shadows it
    // for the expressions after it.
    let rec = RecordSpec {
        name: "shadow".to_string(),
        required_ctx: vec!["x".to_string()],
        byte_order: None,
        reader: None,
        fields: vec![
            field("x", FieldKind::Scalar { width: 8 }),
            field("echo", FieldKind::Assigned(Expr::Var("x".to_string()))),
        ],
    };
    assert!(rec.validate());
    let mut cur = BitCursor::new(vec![7]);
    let v = decode_record(&NoReaders, &rec, &vec![99], &mut cur).unwrap();
    match v {
        Value::Record(fields) => {
            assert_eq!(fields[1].1.as_scalar(), Some(7));
        }
        _ => panic!("expected a record"),
    }
}
