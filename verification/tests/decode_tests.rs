use packetrs::{
    decode_field, decode_record, decode_union, BitCursor, ByteOrder, Expr, FieldKind, FieldSpec,
    NoReaders, PacketRsErrorKind, Pred, RawBytesReader, RecordSpec, UnionSpec, Value,
    VariantPattern, VariantSpec,
};

fn scalar_field(name: &str, width: u64) -> FieldSpec {
    FieldSpec {
        name: name.to_string(),
        kind: FieldKind::Scalar { width },
        ctx: vec![],
        byte_order: None,
        fixed: None,
        assertion: None,
    }
}

fn plain_record(name: &str, fields: Vec<FieldSpec>) -> RecordSpec {
    RecordSpec {
        name: name.to_string(),
        required_ctx: vec![],
        byte_order: None,
        reader: None,
        fields,
    }
}

fn field_scalar(v: &Value) -> u64 {
    v.as_scalar().expect("expected a scalar value")
}

fn record_fields(v: &Value) -> &Vec<(String, Value)> {
    match v {
        Value::Record(fields) => fields,
        _ => panic!("expected a record value"),
    }
}

#[test]
fn u8_u16_record_network_order() {
    // Schema {foo: u8, bar: u16} over [0x2A, 0x00, 0x10] yields foo = 42,
    // bar = 16, with the cursor advanced exactly 3 bytes.
    let rec = plain_record("msg", vec![scalar_field("foo", 8), scalar_field("bar", 16)]);
    assert!(rec.validate());
    let mut cur = BitCursor::new(vec![0x2A, 0x00, 0x10]);
    let v = decode_record(&NoReaders, &rec, &vec![], &mut cur).expect("decode should succeed");
    let fields = record_fields(&v);
    assert_eq!(fields.len(), 2);
    assert_eq!(fields[0].0, "foo");
    assert_eq!(field_scalar(&fields[0].1), 42);
    assert_eq!(fields[1].0, "bar");
    assert_eq!(field_scalar(&fields[1].1), 16);
    assert_eq!(cur.position(), 24);
}

#[test]
fn decode_is_deterministic() {
    // The same bytes decoded twice against the same schema give the same
    // values and the same final position.
    let rec = plain_record("msg", vec![scalar_field("a", 4), scalar_field("b", 12)]);
    assert!(rec.validate());
    let mut c1 = BitCursor::new(vec![0xAB, 0xCD]);
    let mut c2 = BitCursor::new(vec![0xAB, 0xCD]);
    let v1 = decode_record(&NoReaders, &rec, &vec![], &mut c1).unwrap();
    let v2 = decode_record(&NoReaders, &rec, &vec![], &mut c2).unwrap();
    let f1 = record_fields(&v1);
    let f2 = record_fields(&v2);
    assert_eq!(field_scalar(&f1[0].1), field_scalar(&f2[0].1));
    assert_eq!(field_scalar(&f1[1].1), field_scalar(&f2[1].1));
    assert_eq!(c1.position(), c2.position());
}

#[test]
fn sub_byte_scalars() {
    // Two 4-bit reads split one byte, most significant nibble first.
    let rec = plain_record("nibbles", vec![scalar_field("hi", 4), scalar_field("lo", 4)]);
    assert!(rec.validate());
    let mut cur = BitCursor::new(vec![0xAB]);
    let v = decode_record(&NoReaders, &rec, &vec![], &mut cur).unwrap();
    let fields = record_fields(&v);
    assert_eq!(field_scalar(&fields[0].1), 0xA);
    assert_eq!(field_scalar(&fields[1].1), 0xB);
    assert_eq!(cur.position(), 8);
}

#[test]
fn little_endian_override() {
    // The same two bytes read as u16: network order gives 0x1000, a
    // little-endian field override gives 0x0010.
    let be = plain_record("be", vec![scalar_field("x", 16)]);
    let mut le_field = scalar_field("x", 16);
    le_field.byte_order = Some(ByteOrder::LittleEndian);
    let le = plain_record("le", vec![le_field]);
    assert!(be.validate());
    assert!(le.validate());
    let mut c1 = BitCursor::new(vec![0x10, 0x00]);
    let mut c2 = BitCursor::new(vec![0x10, 0x00]);
    let vbe = decode_record(&NoReaders, &be, &vec![], &mut c1).unwrap();
    let vle = decode_record(&NoReaders, &le, &vec![], &mut c2).unwrap();
    assert_eq!(field_scalar(&record_fields(&vbe)[0].1), 0x1000);
    assert_eq!(field_scalar(&record_fields(&vle)[0].1), 0x0010);
}

#[test]
fn schema_default_byte_order_inherited() {
    // A record-level little-endian default applies to fields that do not
    // override it.
    let mut rec = plain_record("le", vec![scalar_field("x", 32)]);
    rec.byte_order = Some(ByteOrder::LittleEndian);
    assert!(rec.validate());
    let mut cur = BitCursor::new(vec![0x78, 0x56, 0x34, 0x12]);
    let v = decode_record(&NoReaders, &rec, &vec![], &mut cur).unwrap();
    assert_eq!(field_scalar(&record_fields(&v)[0].1), 0x12345678);
}

#[test]
fn boolean_field() {
    // An eight-field record of booleans reads one byte bit by bit.
    let fields: Vec<FieldSpec> = (0..8)
        .map(|i| FieldSpec {
            name: format!("b{}", i),
            kind: FieldKind::Boolean,
            ctx: vec![],
            byte_order: None,
            fixed: None,
            assertion: None,
        })
        .collect();
    let rec = plain_record("flags", fields);
    assert!(rec.validate());
    let mut cur = BitCursor::new(vec![0b1010_0001]);
    let v = decode_record(&NoReaders, &rec, &vec![], &mut cur).unwrap();
    let fs = record_fields(&v);
    let expected = [true, false, true, false, false, false, false, true];
    for (i, want) in expected.iter().enumerate() {
        match &fs[i].1 {
            Value::Bool(b) => assert_eq!(b, want),
            _ => panic!("expected a boolean"),
        }
    }
}

#[test]
fn repeated_count_reads_exactly_count() {
    // A count = 3 repeated u8 over [1, 2, 3] yields the sequence [1, 2, 3].
    let rec = plain_record(
        "list",
        vec![FieldSpec {
            name: "values".to_string(),
            kind: FieldKind::ListCount {
                elem: Box::new(FieldKind::Scalar { width: 8 }),
                count: Expr::Const(3),
            },
            ctx: vec![],
            byte_order: None,
            fixed: None,
            assertion: None,
        }],
    );
    assert!(rec.validate());
    let mut cur = BitCursor::new(vec![1, 2, 3]);
    let v = decode_record(&NoReaders, &rec, &vec![], &mut cur).unwrap();
    match &record_fields(&v)[0].1 {
        Value::List(items) => {
            assert_eq!(items.len(), 3);
            assert_eq!(field_scalar(&items[0]), 1);
            assert_eq!(field_scalar(&items[1]), 2);
            assert_eq!(field_scalar(&items[2]), 3);
        }
        _ => panic!("expected a list"),
    }
    assert_eq!(cur.position(), 24);
}

#[test]
fn repeated_count_exhaustion_names_field() {
    // The same count = 3 schema over only [1, 2] fails with a stream
    // exhaustion error annotated with the field's name.
    let rec = plain_record(
        "list",
        vec![FieldSpec {
            name: "values".to_string(),
            kind: FieldKind::ListCount {
                elem: Box::new(FieldKind::Scalar { width: 8 }),
                count: Expr::Const(3),
            },
            ctx: vec![],
            byte_order: None,
            fixed: None,
            assertion: None,
        }],
    );
    assert!(rec.validate());
    let mut cur = BitCursor::new(vec![1, 2]);
    let e = decode_record(&NoReaders, &rec, &vec![], &mut cur).unwrap_err();
    assert!(matches!(e.kind, PacketRsErrorKind::Exhausted));
    assert_eq!(e.trail, vec!["values".to_string()]);
}

#[test]
fn count_from_prior_field() {
    // A count expression may reference an already decoded field.
    let rec = plain_record(
        "framed",
        vec![
            scalar_field("len", 8),
            FieldSpec {
                name: "body".to_string(),
                kind: FieldKind::ListCount {
                    elem: Box::new(FieldKind::Scalar { width: 8 }),
                    count: Expr::Var("len".to_string()),
                },
                ctx: vec![],
                byte_order: None,
                fixed: None,
                assertion: None,
            },
        ],
    );
    assert!(rec.validate());
    let mut cur = BitCursor::new(vec![2, 7, 9, 99]);
    let v = decode_record(&NoReaders, &rec, &vec![], &mut cur).unwrap();
    match &record_fields(&v)[1].1 {
        Value::List(items) => {
            assert_eq!(items.len(), 2);
            assert_eq!(field_scalar(&items[0]), 7);
            assert_eq!(field_scalar(&items[1]), 9);
        }
        _ => panic!("expected a list"),
    }
    assert_eq!(cur.position(), 24);
}

#[test]
fn while_false_reads_nothing() {
    // A while predicate that is false from the start yields an empty list
    // and consumes nothing.
    let rec = plain_record(
        "list",
        vec![FieldSpec {
            name: "values".to_string(),
            kind: FieldKind::ListWhile {
                elem: Box::new(FieldKind::Scalar { width: 32 }),
                pred: Pred::Gt(Expr::Const(1), Expr::Const(2)),
            },
            ctx: vec![],
            byte_order: None,
            fixed: None,
            assertion: None,
        }],
    );
    assert!(rec.validate());
    let mut cur = BitCursor::new(vec![1, 2, 3, 4]);
    let v = decode_record(&NoReaders, &rec, &vec![], &mut cur).unwrap();
    match &record_fields(&v)[0].1 {
        Value::List(items) => assert_eq!(items.len(), 0),
        _ => panic!("expected a list"),
    }
    assert_eq!(cur.position(), 0);
}

#[test]
fn count_and_while_agree() {
    // Reading u8 elements while bits remain matches a count = 3 read over
    // the same three available bytes.
    let while_field = FieldSpec {
        name: "values".to_string(),
        kind: FieldKind::ListWhile {
            elem: Box::new(FieldKind::Scalar { width: 8 }),
            pred: Pred::Ge(Expr::Remaining, Expr::Const(1)),
        },
        ctx: vec![],
        byte_order: None,
        fixed: None,
        assertion: None,
    };
    let count_field = FieldSpec {
        name: "values".to_string(),
        kind: FieldKind::ListCount {
            elem: Box::new(FieldKind::Scalar { width: 8 }),
            count: Expr::Const(3),
        },
        ctx: vec![],
        byte_order: None,
        fixed: None,
        assertion: None,
    };
    let rec_while = plain_record("w", vec![while_field]);
    let rec_count = plain_record("c", vec![count_field]);
    assert!(rec_while.validate());
    assert!(rec_count.validate());
    let mut c1 = BitCursor::new(vec![5, 6, 7]);
    let mut c2 = BitCursor::new(vec![5, 6, 7]);
    let v1 = decode_record(&NoReaders, &rec_while, &vec![], &mut c1).unwrap();
    let v2 = decode_record(&NoReaders, &rec_count, &vec![], &mut c2).unwrap();
    let l1 = match &record_fields(&v1)[0].1 {
        Value::List(items) => items.iter().map(field_scalar).collect::<Vec<u64>>(),
        _ => panic!("expected a list"),
    };
    let l2 = match &record_fields(&v2)[0].1 {
        Value::List(items) => items.iter().map(field_scalar).collect::<Vec<u64>>(),
        _ => panic!("expected a list"),
    };
    assert_eq!(l1, vec![5, 6, 7]);
    assert_eq!(l1, l2);
    assert_eq!(c1.position(), c2.position());
}

#[test]
fn while_no_progress_is_an_error() {
    // A while loop over an element that consumes no bits cannot advance
    // and fails rather than looping forever.
    let rec = plain_record(
        "list",
        vec![FieldSpec {
            name: "values".to_string(),
            kind: FieldKind::ListWhile {
                elem: Box::new(FieldKind::Assigned(Expr::Const(1))),
                pred: Pred::Ge(Expr::Remaining, Expr::Const(0)),
            },
            ctx: vec![],
            byte_order: None,
            fixed: None,
            assertion: None,
        }],
    );
    assert!(rec.validate());
    let mut cur = BitCursor::new(vec![1]);
    let e = decode_record(&NoReaders, &rec, &vec![], &mut cur).unwrap_err();
    assert!(matches!(e.kind, PacketRsErrorKind::NoProgress));
}

#[test]
fn optional_absent_consumes_nothing() {
    // When the `when` predicate is false the field is absent, no error is
    // raised, and the cursor has not moved.
    let rec = plain_record(
        "opt",
        vec![FieldSpec {
            name: "maybe".to_string(),
            kind: FieldKind::OptionalWhen {
                elem: Box::new(FieldKind::Scalar { width: 8 }),
                when: Pred::Eq(Expr::Const(0), Expr::Const(1)),
            },
            ctx: vec![],
            byte_order: None,
            fixed: None,
            assertion: None,
        }],
    );
    assert!(rec.validate());
    let mut cur = BitCursor::new(vec![0xFF]);
    let v = decode_record(&NoReaders, &rec, &vec![], &mut cur).unwrap();
    assert!(matches!(record_fields(&v)[0].1, Value::Absent));
    assert_eq!(cur.position(), 0);
}

#[test]
fn optional_present_reads_inner() {
    // When the `when` predicate is true the inner read happens and the
    // value is wrapped as present.
    let rec = plain_record(
        "opt",
        vec![
            scalar_field("tag", 8),
            FieldSpec {
                name: "maybe".to_string(),
                kind: FieldKind::OptionalWhen {
                    elem: Box::new(FieldKind::Scalar { width: 8 }),
                    when: Pred::Eq(Expr::Var("tag".to_string()), Expr::Const(1)),
                },
                ctx: vec![],
                byte_order: None,
                fixed: None,
                assertion: None,
            },
        ],
    );
    assert!(rec.validate());
    let mut cur = BitCursor::new(vec![1, 42]);
    let v = decode_record(&NoReaders, &rec, &vec![], &mut cur).unwrap();
    match &record_fields(&v)[1].1 {
        Value::Present(inner) => assert_eq!(field_scalar(inner), 42),
        _ => panic!("expected a present optional"),
    }
    assert_eq!(cur.position(), 16);
}

#[test]
fn fixed_value_accepts_match() {
    // fixed = 5 over an actual 5 succeeds.
    let mut f = scalar_field("magic", 8);
    f.fixed = Some(Expr::Const(5));
    let rec = plain_record("fix", vec![f]);
    assert!(rec.validate());
    let mut cur = BitCursor::new(vec![5]);
    let v = decode_record(&NoReaders, &rec, &vec![], &mut cur).unwrap();
    assert_eq!(field_scalar(&record_fields(&v)[0].1), 5);
}

#[test]
fn fixed_value_mismatch_names_field_and_values() {
    // fixed = 5 over an actual 6 fails with a mismatch error carrying the
    // field's name, the expected 5 and the actual 6.
    let mut f = scalar_field("magic", 8);
    f.fixed = Some(Expr::Const(5));
    let rec = plain_record("fix", vec![f]);
    assert!(rec.validate());
    let mut cur = BitCursor::new(vec![6]);
    let e = decode_record(&NoReaders, &rec, &vec![], &mut cur).unwrap_err();
    match e.kind {
        PacketRsErrorKind::FixedMismatch { expected, actual } => {
            assert_eq!(expected, 5);
            assert_eq!(actual, 6);
        }
        _ => panic!("expected a fixed-value mismatch"),
    }
    assert_eq!(e.trail, vec!["magic".to_string()]);
}

#[test]
fn assertion_failure_reports_value_and_text() {
    // An assert predicate that rejects the decoded value fails with the
    // value and the predicate's source text.
    let mut f = scalar_field("version", 8);
    f.assertion = Some((
        Pred::Ge(Expr::Var("version".to_string()), Expr::Const(2)),
        "version >= 2".to_string(),
    ));
    let rec = plain_record("hdr", vec![f]);
    assert!(rec.validate());
    let mut cur = BitCursor::new(vec![1]);
    let e = decode_record(&NoReaders, &rec, &vec![], &mut cur).unwrap_err();
    match e.kind {
        PacketRsErrorKind::AssertFailed { value, predicate } => {
            assert_eq!(value, 1);
            assert_eq!(predicate, "version >= 2");
        }
        _ => panic!("expected an assertion failure"),
    }
    assert_eq!(e.trail, vec!["version".to_string()]);
}

#[test]
fn assertion_passes_on_valid_value() {
    let mut f = scalar_field("version", 8);
    f.assertion = Some((
        Pred::Ge(Expr::Var("version".to_string()), Expr::Const(2)),
        "version >= 2".to_string(),
    ));
    let rec = plain_record("hdr", vec![f]);
    assert!(rec.validate());
    let mut cur = BitCursor::new(vec![3]);
    let v = decode_record(&NoReaders, &rec, &vec![], &mut cur).unwrap();
    assert_eq!(field_scalar(&record_fields(&v)[0].1), 3);
}

#[test]
fn nested_failure_carries_dotted_trail() {
    // A failure inside a nested record carries the trail of field names
    // from the innermost field outward.
    let inner = RecordSpec {
        name: "inner".to_string(),
        required_ctx: vec![],
        byte_order: None,
        reader: None,
        fields: vec![scalar_field("deep", 16)],
    };
    let rec = plain_record(
        "outer",
        vec![FieldSpec {
            name: "nested".to_string(),
            kind: FieldKind::Record(Box::new(inner)),
            ctx: vec![],
            byte_order: None,
            fixed: None,
            assertion: None,
        }],
    );
    assert!(rec.validate());
    let mut cur = BitCursor::new(vec![0x01]);
    let e = decode_record(&NoReaders, &rec, &vec![], &mut cur).unwrap_err();
    assert!(matches!(e.kind, PacketRsErrorKind::Exhausted));
    assert_eq!(e.trail, vec!["deep".to_string(), "nested".to_string()]);
}

#[test]
fn context_threading_binds_value() {
    // A nested schema declaring a required "size" receives the value of
    // the caller's "outer_len" expression as its "size" binding.
    let inner = RecordSpec {
        name: "body".to_string(),
        required_ctx: vec!["size".to_string()],
        byte_order: None,
        reader: None,
        fields: vec![FieldSpec {
            name: "data".to_string(),
            kind: FieldKind::ListCount {
                elem: Box::new(FieldKind::Scalar { width: 8 }),
                count: Expr::Var("size".to_string()),
            },
            ctx: vec![],
            byte_order: None,
            fixed: None,
            assertion: None,
        }],
    };
    let rec = plain_record(
        "outer",
        vec![
            scalar_field("outer_len", 8),
            FieldSpec {
                name: "payload".to_string(),
                kind: FieldKind::Record(Box::new(inner)),
                ctx: vec![Expr::Var("outer_len".to_string())],
                byte_order: None,
                fixed: None,
                assertion: None,
            },
        ],
    );
    assert!(rec.validate());
    let mut cur = BitCursor::new(vec![2, 0xAA, 0xBB]);
    let v = decode_record(&NoReaders, &rec, &vec![], &mut cur).unwrap();
    match &record_fields(&v)[1].1 {
        Value::Record(inner_fields) => match &inner_fields[0].1 {
            Value::List(items) => {
                assert_eq!(items.len(), 2);
                assert_eq!(field_scalar(&items[0]), 0xAA);
                assert_eq!(field_scalar(&items[1]), 0xBB);
            }
            _ => panic!("expected a list"),
        },
        _ => panic!("expected a nested record"),
    }
}

#[test]
fn context_arity_mismatch_is_an_error() {
    // Supplying a context of the wrong arity to a top-level decode fails
    // with a context-arity error.
    let rec = RecordSpec {
        name: "needs_ctx".to_string(),
        required_ctx: vec!["size".to_string()],
        byte_order: None,
        reader: None,
        fields: vec![scalar_field("x", 8)],
    };
    assert!(rec.validate());
    let mut cur = BitCursor::new(vec![1]);
    let e = decode_record(&NoReaders, &rec, &vec![], &mut cur).unwrap_err();
    assert!(matches!(e.kind, PacketRsErrorKind::ContextArity));
}

#[test]
fn assigned_field_consumes_no_bits() {
    // A read_value field evaluates its expression and reads nothing.
    let rec = plain_record(
        "calc",
        vec![
            scalar_field("a", 8),
            FieldSpec {
                name: "twice".to_string(),
                kind: FieldKind::Assigned(Expr::Add(
                    Box::new(Expr::Var("a".to_string())),
                    Box::new(Expr::Var("a".to_string())),
                )),
                ctx: vec![],
                byte_order: None,
                fixed: None,
                assertion: None,
            },
        ],
    );
    assert!(rec.validate());
    let mut cur = BitCursor::new(vec![21]);
    let v = decode_record(&NoReaders, &rec, &vec![], &mut cur).unwrap();
    assert_eq!(field_scalar(&record_fields(&v)[1].1), 42);
    assert_eq!(cur.position(), 8);
}

#[test]
fn unknown_reader_is_an_error() {
    // Delegating to a custom reader that the reader set does not provide
    // fails with an unknown-reader error wrapped in the field's name.
    let rec = plain_record(
        "custom",
        vec![FieldSpec {
            name: "blob".to_string(),
            kind: FieldKind::Custom { reader: "read_blob".to_string() },
            ctx: vec![],
            byte_order: None,
            fixed: None,
            assertion: None,
        }],
    );
    assert!(rec.validate());
    let mut cur = BitCursor::new(vec![1, 2]);
    let e = decode_record(&NoReaders, &rec, &vec![], &mut cur).unwrap_err();
    match e.kind {
        PacketRsErrorKind::UnknownReader { name } => assert_eq!(name, "read_blob"),
        _ => panic!("expected an unknown-reader error"),
    }
    assert_eq!(e.trail, vec!["blob".to_string()]);
}

#[test]
fn unbound_variable_is_an_error() {
    let rec = plain_record(
        "bad",
        vec![FieldSpec {
            name: "x".to_string(),
            kind: FieldKind::Assigned(Expr::Var("missing".to_string())),
            ctx: vec![],
            byte_order: None,
            fixed: None,
            assertion: None,
        }],
    );
    assert!(rec.validate());
    let mut cur = BitCursor::new(vec![]);
    let e = decode_record(&NoReaders, &rec, &vec![], &mut cur).unwrap_err();
    match e.kind {
        PacketRsErrorKind::UnboundVar { name } => assert_eq!(name, "missing"),
        _ => panic!("expected an unbound-variable error"),
    }
}

#[test]
fn arithmetic_overflow_is_an_error() {
    let rec = plain_record(
        "bad",
        vec![FieldSpec {
            name: "x".to_string(),
            kind: FieldKind::Assigned(Expr::Add(
                Box::new(Expr::Const(u64::MAX)),
                Box::new(Expr::Const(1)),
            )),
            ctx: vec![],
            byte_order: None,
            fixed: None,
            assertion: None,
        }],
    );
    assert!(rec.validate());
    let mut cur = BitCursor::new(vec![]);
    let e = decode_record(&NoReaders, &rec, &vec![], &mut cur).unwrap_err();
    assert!(matches!(e.kind, PacketRsErrorKind::Overflow));
}

#[test]
fn fixed_on_list_is_not_scalar() {
    // A fixed-value check cannot compare a non-scalar decoded value.
    let rec = plain_record(
        "bad",
        vec![FieldSpec {
            name: "xs".to_string(),
            kind: FieldKind::ListCount {
                elem: Box::new(FieldKind::Scalar { width: 8 }),
                count: Expr::Const(1),
            },
            ctx: vec![],
            byte_order: None,
            fixed: Some(Expr::Const(0)),
            assertion: None,
        }],
    );
    assert!(rec.validate());
    let mut cur = BitCursor::new(vec![9]);
    let e = decode_record(&NoReaders, &rec, &vec![], &mut cur).unwrap_err();
    assert!(matches!(e.kind, PacketRsErrorKind::NotScalar));
}

fn variant(name: &str, pattern: VariantPattern, fields: Vec<FieldSpec>) -> VariantSpec {
    VariantSpec { name: name.to_string(), pattern, byte_order: None, fields }
}

fn keyed_union(name: &str, key: Expr, ctx: Vec<&str>, variants: Vec<VariantSpec>) -> UnionSpec {
    UnionSpec {
        name: name.to_string(),
        required_ctx: ctx.iter().map(|s| s.to_string()).collect(),
        byte_order: None,
        reader: None,
        key,
        variants,
    }
}

#[test]
fn union_dispatches_on_key() {
    // key = left + right over the context picks the variant whose pattern
    // matches the sum.
    let u = keyed_union(
        "choice",
        Expr::Add(
            Box::new(Expr::Var("left".to_string())),
            Box::new(Expr::Var("right".to_string())),
        ),
        vec!["left", "right"],
        vec![
            variant("One", VariantPattern::Literal(1), vec![]),
            variant("Two", VariantPattern::Literal(2), vec![]),
            variant("Three", VariantPattern::Literal(3), vec![scalar_field("payload", 8)]),
        ],
    );
    assert!(u.validate());
    let mut cur = BitCursor::new(vec![77]);
    let v = decode_union(&NoReaders, &u, &vec![1, 2], &mut cur).unwrap();
    match v {
        Value::Variant { name, fields } => {
            assert_eq!(name, "Three");
            assert_eq!(fields.len(), 1);
            assert_eq!(field_scalar(&fields[0].1), 77);
        }
        _ => panic!("expected a variant"),
    }
}

#[test]
fn first_matching_variant_wins() {
    // Two variants both match the discriminant; the first declared one is
    // chosen.
    let u = keyed_union(
        "order",
        Expr::Var("k".to_string()),
        vec!["k"],
        vec![
            variant("First", VariantPattern::AnyOf(vec![1, 2, 3]), vec![]),
            variant("Second", VariantPattern::Literal(2), vec![]),
        ],
    );
    assert!(u.validate());
    let mut cur = BitCursor::new(vec![]);
    let v = decode_union(&NoReaders, &u, &vec![2], &mut cur).unwrap();
    match v {
        Value::Variant { name, fields } => {
            assert_eq!(name, "First");
            assert_eq!(fields.len(), 0);
        }
        _ => panic!("expected a variant"),
    }
}

#[test]
fn guarded_pattern_binds_discriminant() {
    // A guarded pattern matches when its condition holds of the bound
    // discriminant, and the binding stays in scope for the variant's
    // fields.
    let u = keyed_union(
        "guarded",
        Expr::Var("value".to_string()),
        vec!["value"],
        vec![variant(
            "Big",
            VariantPattern::Guarded {
                bind: "x".to_string(),
                cond: Pred::Gt(Expr::Var("x".to_string()), Expr::Const(10)),
            },
            vec![FieldSpec {
                name: "echo".to_string(),
                kind: FieldKind::Assigned(Expr::Var("x".to_string())),
                ctx: vec![],
                byte_order: None,
                fixed: None,
                assertion: None,
            }],
        )],
    );
    assert!(u.validate());
    let mut cur = BitCursor::new(vec![]);
    let v = decode_union(&NoReaders, &u, &vec![11], &mut cur).unwrap();
    match v {
        Value::Variant { name, fields } => {
            assert_eq!(name, "Big");
            assert_eq!(field_scalar(&fields[0].1), 11);
        }
        _ => panic!("expected a variant"),
    }
    let mut cur2 = BitCursor::new(vec![]);
    let e = decode_union(&NoReaders, &u, &vec![10], &mut cur2).unwrap_err();
    match e.kind {
        PacketRsErrorKind::UnknownVariant { key } => assert_eq!(key, 10),
        _ => panic!("expected an unknown-variant error"),
    }
}

#[test]
fn unmatched_discriminant_reports_key() {
    let u = keyed_union(
        "strict",
        Expr::Var("k".to_string()),
        vec!["k"],
        vec![
            variant("One", VariantPattern::Literal(1), vec![]),
            variant("Two", VariantPattern::Literal(2), vec![]),
        ],
    );
    assert!(u.validate());
    let mut cur = BitCursor::new(vec![]);
    let e = decode_union(&NoReaders, &u, &vec![9], &mut cur).unwrap_err();
    match e.kind {
        PacketRsErrorKind::UnknownVariant { key } => assert_eq!(key, 9),
        _ => panic!("expected an unknown-variant error"),
    }
}

#[test]
fn variant_failure_names_variant() {
    // A failure inside a variant's fields is annotated with the variant's
    // name after the field's.
    let u = keyed_union(
        "wrap",
        Expr::Var("k".to_string()),
        vec!["k"],
        vec![variant("Data", VariantPattern::Literal(1), vec![scalar_field("body", 16)])],
    );
    assert!(u.validate());
    let mut cur = BitCursor::new(vec![0xFF]);
    let e = decode_union(&NoReaders, &u, &vec![1], &mut cur).unwrap_err();
    assert!(matches!(e.kind, PacketRsErrorKind::Exhausted));
    assert_eq!(e.trail, vec!["body".to_string(), "Data".to_string()]);
}

#[test]
fn decode_field_directly() {
    // decode_field works on its own against an explicit environment.
    let f = scalar_field("x", 8);
    let mut env: Vec<(String, u64)> = vec![];
    let mut cur = BitCursor::new(vec![200]);
    let v = decode_field(&NoReaders, &f, None, &mut env, &mut cur).unwrap();
    assert_eq!(field_scalar(&v), 200);
    // The decoded scalar is now bound in the environment under its name.
    assert_eq!(env, vec![("x".to_string(), 200)]);
}

#[test]
fn positional_fields_get_synthetic_names() {
    // Tuple-style fields carry synthetic index-based names.
    let rec = plain_record(
        "pair",
        vec![
            FieldSpec::positional(0, FieldKind::Scalar { width: 8 }),
            FieldSpec::positional(1, FieldKind::Scalar { width: 16 }),
        ],
    );
    assert!(rec.validate());
    let mut cur = BitCursor::new(vec![1, 0x00, 0x02]);
    let v = decode_record(&NoReaders, &rec, &vec![], &mut cur).unwrap();
    let fields = record_fields(&v);
    assert_eq!(fields[0].0, "field_0");
    assert_eq!(field_scalar(&fields[0].1), 1);
    assert_eq!(fields[1].0, "field_1");
    assert_eq!(field_scalar(&fields[1].1), 2);
}

#[test]
fn synthetic_names_render_full_decimal() {
    let f = FieldSpec::positional(1234567890, FieldKind::Boolean);
    assert_eq!(f.name, "field_1234567890");
}

#[test]
fn custom_reader_reads_length_prefixed_bytes() {
    // A field delegating to the raw_bytes reader hands it the value of a
    // prior length field; the reader consumes exactly that many bytes.
    let rec = plain_record(
        "framed",
        vec![
            scalar_field("len", 8),
            FieldSpec {
                name: "body".to_string(),
                kind: FieldKind::Custom { reader: "raw_bytes".to_string() },
                ctx: vec![Expr::Var("len".to_string())],
                byte_order: None,
                fixed: None,
                assertion: None,
            },
        ],
    );
    assert!(rec.validate());
    let mut cur = BitCursor::new(vec![2, 0xAA, 0xBB, 0xCC]);
    let v = decode_record(&RawBytesReader, &rec, &vec![], &mut cur).unwrap();
    match &record_fields(&v)[1].1 {
        Value::List(items) => {
            assert_eq!(items.len(), 2);
            assert_eq!(field_scalar(&items[0]), 0xAA);
            assert_eq!(field_scalar(&items[1]), 0xBB);
        }
        _ => panic!("expected a list"),
    }
    assert_eq!(cur.position(), 24);
}

#[test]
fn custom_reader_failure_names_field() {
    // The raw_bytes reader's exhaustion failure comes back wrapped with
    // the delegating field's name.
    let rec = plain_record(
        "framed",
        vec![
            scalar_field("len", 8),
            FieldSpec {
                name: "body".to_string(),
                kind: FieldKind::Custom { reader: "raw_bytes".to_string() },
                ctx: vec![Expr::Var("len".to_string())],
                byte_order: None,
                fixed: None,
                assertion: None,
            },
        ],
    );
    assert!(rec.validate());
    let mut cur = BitCursor::new(vec![5, 0xAA]);
    let e = decode_record(&RawBytesReader, &rec, &vec![], &mut cur).unwrap_err();
    assert!(matches!(e.kind, PacketRsErrorKind::Exhausted));
    assert_eq!(e.trail, vec!["body".to_string()]);
}

#[test]
fn record_level_reader_replaces_decode() {
    // A custom reader declared on the record replaces the whole field
    // sequence; its failure is annotated with the reader's name.
    let rec = RecordSpec {
        name: "delegated".to_string(),
        required_ctx: vec!["n".to_string()],
        byte_order: None,
        reader: Some("raw_bytes".to_string()),
        fields: vec![],
    };
    assert!(rec.validate());
    let mut cur = BitCursor::new(vec![0x11, 0x22]);
    let v = decode_record(&RawBytesReader, &rec, &vec![2], &mut cur).unwrap();
    match v {
        Value::List(items) => {
            assert_eq!(items.len(), 2);
            assert_eq!(field_scalar(&items[0]), 0x11);
            assert_eq!(field_scalar(&items[1]), 0x22);
        }
        _ => panic!("expected a list"),
    }
}

#[test]
fn little_endian_odd_width_swaps_whole_bytes() {
    // A 12-bit little-endian read takes the bits in network order first
    // (0xABC here) and then reverses the two bytes they occupy, giving
    // 0xBC0A.
    let mut f = scalar_field("x", 12);
    f.byte_order = Some(ByteOrder::LittleEndian);
    let rec = plain_record("odd", vec![f]);
    assert!(rec.validate());
    let mut cur = BitCursor::new(vec![0xAB, 0xC0]);
    let v = decode_record(&NoReaders, &rec, &vec![], &mut cur).unwrap();
    assert_eq!(field_scalar(&record_fields(&v)[0].1), 0xBC0A);
    assert_eq!(cur.position(), 12);
}
