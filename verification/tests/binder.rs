use ethbind::binder::{JsonRuntimeBinder, JsonRuntimeType, RuntimeType};
use ethbind::error::BindError;
use ethbind::json::{IntegerM, Type};

fn runtime_binder() -> JsonRuntimeBinder {
    let mut binder = JsonRuntimeBinder::new();
    let encode = "$var.encode()";
    binder.insert("address", JsonRuntimeType::new("Address", encode, "Address::decode($inputs)"));
    binder.insert(
        "uint_m",
        JsonRuntimeType::new("int<false,$m>", encode, "int::<false,$m>::decode($inputs)"),
    );
    binder.insert(
        "int_m",
        JsonRuntimeType::new("int<true,$m>", encode, "int::<true,$m>::decode($inputs)"),
    );
    binder.insert(
        "fixed_m_n",
        JsonRuntimeType::new("fixed<true,$m,$n>", encode, "fixed::<true,$m,$n>::decode($inputs)"),
    );
    binder.insert("array_m", JsonRuntimeType::new("[$el;$m]", encode, "<[$el;$m]>::decode($inputs)"));
    binder.insert("array", JsonRuntimeType::new("Vec<$el>", encode, "Vec<$el>::decode($inputs)"));
    binder.insert("bytes_m", JsonRuntimeType::new("[u8;$m]", encode, "<[u8;$m]>::decode($inputs)"));
    binder
}

#[test]
fn test_json_runtime_binder() {
    let mut runtime_binder: JsonRuntimeBinder = runtime_binder();

    let t: Type = "uint256".parse().expect("Parse type string");

    let runtime_type = runtime_binder
        .to_runtime_type(&t)
        .expect("Get runtime type")
        .expect("Is not tuple type");

    assert_eq!(runtime_type.declare_type, "int<false,256>");
    assert_eq!(runtime_type.rlp_encode, "$var.encode()");
    assert_eq!(runtime_type.rlp_decode, "int::<false,256>::decode($inputs)");

    let t: Type = "fixed128x8".parse().expect("Parse type string");

    let runtime_type = runtime_binder
        .to_runtime_type(&t)
        .expect("Get runtime type")
        .expect("Is not tuple type");

    assert_eq!(runtime_type.declare_type, "fixed<true,128,8>");
    assert_eq!(runtime_type.rlp_encode, "$var.encode()");
    assert_eq!(runtime_type.rlp_decode, "fixed::<true,128,8>::decode($inputs)");

    let t: Type = "uint256[20]".parse().expect("Parse type string");

    let runtime_type = runtime_binder
        .to_runtime_type(&t)
        .expect("Get runtime type")
        .expect("Is not tuple type");

    assert_eq!(runtime_type.declare_type, "[int<false,256>;20]");
    assert_eq!(runtime_type.rlp_encode, "$var.encode()");
    assert_eq!(runtime_type.rlp_decode, "<[int<false,256>;20]>::decode($inputs)");

    let t: Type = "uint256[]".parse().expect("Parse type string");

    let runtime_type = runtime_binder
        .to_runtime_type(&t)
        .expect("Get runtime type")
        .expect("Is not tuple type");

    assert_eq!(runtime_type.declare_type, "Vec<int<false,256>>");
    assert_eq!(runtime_type.rlp_encode, "$var.encode()");
    assert_eq!(runtime_type.rlp_decode, "Vec<int<false,256>>::decode($inputs)");

    let t: Type = "bytes24".parse().expect("Parse type string");

    let runtime_type = runtime_binder
        .to_runtime_type(&t)
        .expect("Get runtime type")
        .expect("Is not tuple type");

    assert_eq!(runtime_type.declare_type, "[u8;24]");
    assert_eq!(runtime_type.rlp_encode, "$var.encode()");
    assert_eq!(runtime_type.rlp_decode, "<[u8;24]>::decode($inputs)");

    let t: Type = "address".parse().expect("Parse type string");

    let runtime_type = runtime_binder
        .to_runtime_type(&t)
        .expect("Get runtime type")
        .expect("Is not tuple type");

    assert_eq!(runtime_type.declare_type, "Address");
    assert_eq!(runtime_type.rlp_encode, "$var.encode()");
    assert_eq!(runtime_type.rlp_decode, "Address::decode($inputs)");
}

#[test]
fn calls_take_their_variable() {
    let mut binder = runtime_binder();
    let t = Type::parse("int64").expect("Parse type string");
    let runtime_type = binder.to_runtime_type(&t).expect("known").expect("no tuple");
    assert_eq!(runtime_type.declare_type(), "int<true,64>");
    assert_eq!(runtime_type.rlp_encode("amount"), "amount.encode()");
    assert_eq!(runtime_type.rlp_decode("data"), "int::<true,64>::decode(data)");
}

#[test]
fn tuples_have_no_runtime_type() {
    let mut binder = runtime_binder();
    for descriptor in ["tuple", "tuple[]", "tuple[3]", "tuple[][2]"] {
        let t = Type::parse(descriptor).expect("Parse type string");
        assert!(binder.to_runtime_type(&t).expect("no failure").is_none());
    }
}

#[test]
fn a_missing_runtime_type_is_reported() {
    let mut binder = runtime_binder();
    let t = Type::parse("bool").expect("Parse type string");
    assert_eq!(
        binder.to_runtime_type(&t).map(|_| ()),
        Err(BindError::UnknownType("bool".to_string()))
    );
    let t = Type::parse("bool[2]").expect("Parse type string");
    assert_eq!(
        binder.to_runtime_type(&t).map(|_| ()),
        Err(BindError::UnknownType("bool".to_string()))
    );
    assert!(binder.get("rt_client").is_err());
    assert_eq!(binder.search_basic_type("address").expect("known").declare_type, "Address");
    let e = binder.get("rt_client").map(|_| ()).unwrap_err();
    assert_eq!(e.to_string(), "Runtime binder didn't found mapping runtime type for rt_client");
    let mut empty = JsonRuntimeBinder::new();
    let t = Type::parse("uint8[]").expect("Parse type string");
    assert_eq!(
        empty.to_runtime_type(&t).map(|_| ()),
        Err(BindError::UnknownType("uint_m".to_string()))
    );
}

#[test]
fn what_was_remembered_does_not_change_the_answer() {
    let mut binder = runtime_binder();
    let t = Type::parse("uint8[2][]").expect("Parse type string");
    let first = binder.to_runtime_type(&t).expect("known").expect("no tuple");
    let second = binder.to_runtime_type(&t).expect("known").expect("no tuple");
    let mut fresh = runtime_binder();
    let third = fresh.to_runtime_type(&t).expect("known").expect("no tuple");
    assert_eq!(first.declare_type, "Vec<[int<false,8>;2]>");
    assert_eq!(first.declare_type, second.declare_type);
    assert_eq!(first.rlp_decode, second.rlp_decode);
    assert_eq!(first.rlp_encode, third.rlp_encode);
    assert_eq!(first.declare_type, third.declare_type);
    let direct = binder.to_integer_m(&IntegerM { signed: false, m: 8 }).expect("known");
    assert_eq!(direct.declare_type, "int<false,8>");
    binder.insert("uint_m", JsonRuntimeType::new("U$m", "e", "d"));
    let after = binder.to_runtime_type(&t).expect("known").expect("no tuple");
    assert_eq!(after.declare_type, "Vec<[U8;2]>");
}

#[test]
fn texts_are_written_for_a_type() {
    let mut binder = runtime_binder();
    let t = Type::parse("uint256[20]").expect("Parse type string");
    assert_eq!(binder.declare(&t), Ok(Some("[int<false,256>;20]".to_string())));
    assert_eq!(binder.encode_call(&t, "amounts"), Ok(Some("amounts.encode()".to_string())));
    assert_eq!(
        binder.decode_call(&t, "data"),
        Ok(Some("<[int<false,256>;20]>::decode(data)".to_string()))
    );
    let tuple = Type::parse("tuple[]").expect("Parse type string");
    assert_eq!(binder.declare(&tuple), Ok(None));
    assert_eq!(binder.encode_call(&tuple, "x"), Ok(None));
    assert_eq!(binder.decode_call(&tuple, "x"), Ok(None));
    let missing = Type::parse("string").expect("Parse type string");
    assert_eq!(binder.declare(&missing), Err(BindError::UnknownType("string".to_string())));
}

#[test]
fn a_placeholder_left_in_a_text_is_reported() {
    let mut binder = JsonRuntimeBinder::new();
    binder.insert("bytes_m", JsonRuntimeType::new("[u8;$len]", "$v.encode()", "decode($in)"));
    let t = Type::parse("bytes4").expect("Parse type string");
    assert_eq!(
        binder.declare(&t),
        Err(BindError::Mapping(ethbind::error::TypeMappingError::Serde(
            "[u8;$len]".to_string(),
            "$el $m $n".to_string()
        )))
    );
    assert_eq!(
        binder.encode_call(&t, "x"),
        Err(BindError::Mapping(ethbind::error::TypeMappingError::Serde(
            "$v.encode()".to_string(),
            "$el $m $n $var".to_string()
        )))
    );
    assert_eq!(
        binder.decode_call(&t, "x"),
        Err(BindError::Mapping(ethbind::error::TypeMappingError::Serde(
            "decode($in)".to_string(),
            "$el $m $n $inputs".to_string()
        )))
    );
}
