use ethbind::error::AbiError;
use ethbind::grammar::{fixed_captures, length_suffix};
use ethbind::json::{Array, ArrayM, BytesM, FixedMN, IntegerM, SimpleType, Type};

#[test]
fn test_fixed_regex() {
    assert!(fixed_captures("ufixed100x18").is_some());

    assert!(fixed_captures("fixed100x18").is_some());

    assert!(!fixed_captures("fixed1000x18").is_some());

    assert!(!fixed_captures("ufixed1000x18").is_some());
    assert!(!fixed_captures("uufixed1000x18").is_some());

    assert!(!fixed_captures("fixed-100x18").is_some());

    if let Some((signed, m, n)) = fixed_captures("fixed128x18") {
        assert_eq!(signed, true);
        assert_eq!(m, 128);
        assert_eq!(n, 18);
    }
}

#[test]
fn test_fixed_json() {
    let fixed: FixedMN = FixedMN::parse("fixed128x18").expect("Parse fixed");

    assert_eq!(fixed.signed, true);
    assert_eq!(fixed.m, 128);
    assert_eq!(fixed.n, 18);

    let fixed: FixedMN = FixedMN::parse("ufixed128x18").expect("Parse fixed");

    assert_eq!(fixed.signed, false);
    assert_eq!(fixed.m, 128);
    assert_eq!(fixed.n, 18);

    FixedMN::parse("ufixed100x18").expect_err("M % 8 == 0");

    FixedMN::parse("ufixed128x180").expect_err("N <= 80");
}

#[test]
fn test_int_json() {
    let fixed: IntegerM = IntegerM::parse("int128").expect("Parse integer");

    assert_eq!(fixed.signed, true);
    assert_eq!(fixed.m, 128);

    let fixed: IntegerM = IntegerM::parse("uint128").expect("Parse integer");

    assert_eq!(fixed.signed, false);
    assert_eq!(fixed.m, 128);

    IntegerM::parse("uint100").expect_err("M % 8 == 0");
}

#[test]
fn test_end_with() {
    let length = length_suffix("Hello[1][123]").unwrap();

    assert_eq!(length, 123);
}

#[test]
fn test_type_serde() {
    fn check(expect: &str) {
        let t: Type = expect.parse().expect("Parse type string");

        let data: String = t.into();

        assert_eq!(data, expect);
    }

    let test_vector = vec![
        "uint256",
        "int256",
        "address",
        "int8",
        "uint",
        "int",
        "bool",
        "fixed128x16",
        "ufixed128x16",
        "fixed",
        "ufixed",
        "bytes",
        "bytes24",
        "tuple",
        "function",
        "string",
        "tuple[]",
        "tuple[][32]",
        "bool[20]",
    ];

    for v in test_vector {
        check(v);
    }
}

#[test]
fn parses_a_simple_word() {
    let t = Type::parse("bool").expect("bool is a descriptor");
    assert_eq!(t, Type::Simple(SimpleType::Bool));
    assert_eq!(SimpleType::parse("function"), Some(SimpleType::Function));
    assert_eq!(SimpleType::parse("Bool"), None);
    assert_eq!(SimpleType::Ufixed.to_string(), "ufixed");
    assert!(SimpleType::Tuple.is_tuple());
    assert!(!SimpleType::Bytes.is_tuple());
}

#[test]
fn array_grammar_comes_first() {
    let t = Type::parse("bool[20]").expect("an array of bool");
    assert_eq!(
        t,
        Type::ArrayM(Box::new(ArrayM { element: Type::Simple(SimpleType::Bool), m: 20 }))
    );
    let t = Type::parse("bytes32[]").expect("an array of bytes32");
    assert_eq!(t, Type::Array(Box::new(Array { element: Type::BytesM(BytesM { m: 32 }) })));
    let t = Type::parse("tuple[][32]").expect("an array of arrays of tuples");
    assert_eq!(
        t,
        Type::ArrayM(Box::new(ArrayM {
            element: Type::Array(Box::new(Array { element: Type::Simple(SimpleType::Tuple) })),
            m: 32,
        }))
    );
}

#[test]
fn array_lengths_of_one_to_three_digits() {
    let one = ArrayM::parse("uint256[5]").expect("one digit");
    assert_eq!(one.m, 5);
    assert_eq!(one.element, Type::IntegerM(IntegerM { signed: false, m: 256 }));
    let three = ArrayM::parse("uint256[123]").expect("three digits");
    assert_eq!(three.m, 123);
    assert_eq!(three.to_string(), "uint256[123]");
    let zero = ArrayM::parse("address[0]").expect("no elements");
    assert_eq!(zero.m, 0);
    assert!(matches!(Type::parse("bool[1234]"), Err(AbiError::UnknownType(_))));
    assert!(matches!(ArrayM::parse("bool[]"), Err(AbiError::ArrayM(_, _))));
    assert!(matches!(Array::parse("bool[2]"), Err(AbiError::Array(_, _))));
    assert_eq!(Array::parse("string[]").expect("dynamic").to_string(), "string[]");
}

#[test]
fn numeric_bounds_are_enforced() {
    match Type::parse("uint100") {
        Err(AbiError::IntegerM(value, rule)) => {
            assert_eq!(value, "uint100");
            assert_eq!(rule, "M bits must meet the condition 8 <= M <= 256, M % 8 == 0");
        }
        other => panic!("unexpected outcome {:?}", other),
    }
    match Type::parse("ufixed128x180") {
        Err(AbiError::FixedMN(value, rule)) => {
            assert_eq!(value, "ufixed128x180");
            assert_eq!(rule, "fractional digits N must meet the condition 0 <= N <= 80");
        }
        other => panic!("unexpected outcome {:?}", other),
    }
    match Type::parse("bytes40") {
        Err(AbiError::BytesM(value, rule)) => {
            assert_eq!(value, "bytes40");
            assert_eq!(rule, "M bytes must meet the condition 1 <= M <= 32");
        }
        other => panic!("unexpected outcome {:?}", other),
    }
    assert!(matches!(Type::parse("bytes0"), Err(AbiError::BytesM(_, _))));
    assert!(matches!(Type::parse("int0"), Err(AbiError::IntegerM(_, _))));
    assert!(matches!(Type::parse("uint264"), Err(AbiError::IntegerM(_, _))));
    assert!(matches!(Type::parse("fixed7x1"), Err(AbiError::FixedMN(_, _))));
    assert_eq!(Type::parse("uint8"), Ok(Type::IntegerM(IntegerM { signed: false, m: 8 })));
    assert_eq!(Type::parse("int256"), Ok(Type::IntegerM(IntegerM { signed: true, m: 256 })));
    assert_eq!(Type::parse("bytes1"), Ok(Type::BytesM(BytesM { m: 1 })));
    assert_eq!(Type::parse("bytes32"), Ok(Type::BytesM(BytesM { m: 32 })));
    assert_eq!(
        Type::parse("fixed8x0"),
        Ok(Type::FixedMN(FixedMN { m: 8, n: 0, signed: true }))
    );
    assert_eq!(
        Type::parse("ufixed256x80"),
        Ok(Type::FixedMN(FixedMN { m: 256, n: 80, signed: false }))
    );
}

#[test]
fn a_fault_in_an_element_is_reported() {
    match Type::parse("uint100[3]") {
        Err(AbiError::IntegerM(value, _)) => assert_eq!(value, "uint100"),
        other => panic!("unexpected outcome {:?}", other),
    }
    match Type::parse("foo[]") {
        Err(AbiError::UnknownType(value)) => assert_eq!(value, "foo"),
        other => panic!("unexpected outcome {:?}", other),
    }
}

#[test]
fn malformed_descriptors_are_rejected() {
    for text in [
        "", "uint008", "uint08", "bytes+5", "bytes032", "bool[02]", "fixed128x", "fixedx8",
        "uint256 ", " uint256", "UINT256", "int8x8", "uint1000", "tuple[", "tuple]", "[]", "[3]",
        "fixed128x018",
    ] {
        assert!(matches!(Type::parse(text), Err(AbiError::UnknownType(_))), "{:?}", text);
    }
}

#[test]
fn standalone_parsers_name_the_shape() {
    match FixedMN::parse("int8") {
        Err(AbiError::FixedMN(value, rule)) => {
            assert_eq!(value, "int8");
            assert!(rule.starts_with("{u}fixed<M>x<N>"));
        }
        other => panic!("unexpected outcome {:?}", other),
    }
    assert!(matches!(IntegerM::parse("fixed8x8"), Err(AbiError::IntegerM(_, _))));
    match BytesM::parse("bytes") {
        Err(AbiError::BytesM(value, rule)) => {
            assert_eq!(value, "bytes");
            assert_eq!(rule, "bytes<M>: binary type of M bytes, 1 <= M <= 32");
        }
        other => panic!("unexpected outcome {:?}", other),
    }
    assert_eq!(BytesM::parse("bytes24").expect("bytes24").m, 24);
    assert_eq!(FixedMN { m: 128, n: 18, signed: false }.to_string(), "ufixed128x18");
    assert_eq!(IntegerM { m: 64, signed: true }.to_string(), "int64");
    assert_eq!(BytesM { m: 7 }.to_string(), "bytes7");
}

#[test]
fn messages_carry_value_and_rule() {
    let e = Type::parse("bytes40").expect_err("too long");
    assert_eq!(e.to_string(), "Invalid fixed length binary type declare bytes40, M bytes must meet the condition 1 <= M <= 32");
    let e = Type::parse("nothing").expect_err("unknown");
    assert_eq!(e.to_string(), "Invalid Type declare nothing");
}

#[test]
fn types_compare_and_copy() {
    let t = Type::parse("tuple[][32]").expect("nested");
    let copy = t.clone();
    assert!(t.same(&copy));
    assert!(!t.same(&Type::parse("tuple[][31]").expect("nested")));
    assert!(!t.same(&Type::Simple(SimpleType::Tuple)));
}
