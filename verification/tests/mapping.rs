use ethbind::error::TypeMappingError;
use ethbind::executor::Executor;
use ethbind::json::{FixedMN, IntegerM, Parameter, SimpleType, Type};
use ethbind::mapping::{SerdeTypeMapping, TypeMapping};

fn mapping() -> SerdeTypeMapping {
    let mut mapping = SerdeTypeMapping::new();
    mapping.insert("address", "ethers_rs::Address");
    mapping.insert("array", "Vec<$element>");
    mapping.insert("array_m", "[$element;$m]");
    mapping.insert("bytes_m", "[u8;$m]");
    mapping.insert("fixed_m_n", "Fixed<true,$m,$n>");
    mapping.insert("ufixed_m_n", "Fixed<false,$m,$n>");
    mapping.insert("int_m", "Int<true,$m>");
    mapping.insert("uint_m", "Int<false,$m>");
    mapping.insert("rt_context", "Client");
    mapping.insert("rt_to_encodable", "$var.encodable()");
    mapping
}

#[test]
fn test_load_mapping_from_json() {
    let mapping = mapping();

    assert_eq!(mapping.array("uint256").unwrap(), "Vec<uint256>");

    assert_eq!(mapping.array_m("uint256", 64).unwrap(), "[uint256;64]");

    assert_eq!(mapping.bytes_m(32).unwrap(), "[u8;32]");

    assert_eq!(
        mapping.fixed_m_n(FixedMN { signed: true, m: 256, n: 30 }).unwrap(),
        "Fixed<true,256,30>"
    );

    assert_eq!(
        mapping.fixed_m_n(FixedMN { signed: false, m: 256, n: 30 }).unwrap(),
        "Fixed<false,256,30>"
    );

    assert_eq!(mapping.integer_m(IntegerM { signed: true, m: 256 }).unwrap(), "Int<true,256>");

    assert_eq!(mapping.integer_m(IntegerM { signed: false, m: 128 }).unwrap(), "Int<false,128>");

    assert_eq!(mapping.simple(&SimpleType::Address).unwrap(), "ethers_rs::Address");
}

#[test]
fn a_missing_template_is_reported() {
    let mapping = mapping();
    assert_eq!(
        mapping.simple(&SimpleType::Bool),
        Err(TypeMappingError::NotFound("bool".to_string()))
    );
    assert_eq!(
        mapping.get_mapping("rt_ops", &[]),
        Err(TypeMappingError::NotFound("rt_ops".to_string()))
    );
}

#[test]
fn a_placeholder_left_over_is_reported() {
    let mapping = mapping();
    assert_eq!(
        mapping.get_mapping("array_m", &[("$element", "u8"), ("$n", "3")]),
        Err(TypeMappingError::Serde("[u8;$m]".to_string(), "$element $n".to_string()))
    );
    assert_eq!(
        mapping.get_mapping("bytes_m", &[]),
        Err(TypeMappingError::Serde("[u8;$m]".to_string(), "".to_string()))
    );
    let e = mapping.get_mapping("bytes_m", &[]).unwrap_err();
    assert_eq!(
        e.to_string(),
        "Serde type mapping parsing error for type [u8;$m], valid placeholder: "
    );
}

#[test]
fn arguments_are_substituted_in_order_and_everywhere() {
    let mut mapping = SerdeTypeMapping::new();
    mapping.insert("pair", "($a,$b,$a)");
    assert_eq!(mapping.get_mapping("pair", &[("$a", "x"), ("$b", "y")]).unwrap(), "(x,y,x)");
    assert_eq!(mapping.get_mapping("pair", &[("$a", "$b"), ("$b", "y")]).unwrap(), "(y,y,y)");
    mapping.insert("pair", "<$a>");
    assert_eq!(mapping.get_mapping("pair", &[("$a", "z")]).unwrap(), "<z>");
    mapping.insert("plain", "ab");
    assert_eq!(mapping.get_mapping("plain", &[("", "-")]).unwrap(), "-a-b-");
}

#[test]
fn resolving_twice_gives_the_same_text() {
    let mapping = mapping();
    let executor = Executor::new();
    let ty = Type::parse("uint256[4][]").expect("a descriptor");
    let first = executor.mapping_type(&mapping, &ty, &vec![]).unwrap();
    let second = executor.mapping_type(&mapping, &ty, &vec![]).unwrap();
    assert_eq!(first, "Vec<[Int<false,256>;4]>");
    assert_eq!(first, second);
}

#[test]
fn a_tuple_resolves_once_it_was_emitted() {
    let mapping = mapping();
    let mut executor = Executor::new();
    let fields = vec![Parameter {
        name: "maker".to_string(),
        ty: Type::Simple(SimpleType::Address),
        components: None,
        indexed: false,
    }];
    let parameter = Parameter {
        name: "orders".to_string(),
        ty: Type::parse("tuple[]").expect("a descriptor"),
        components: Some(fields),
        indexed: false,
    };
    assert_eq!(
        executor.mapping_parameter(&mapping, &parameter),
        Err(TypeMappingError::NotFound("()".to_string()))
    );
    executor.register_tuple_mapping("()", "TestOrder".to_string());
    assert_eq!(executor.mapping_parameter(&mapping, &parameter).unwrap(), "Vec<TestOrder>");
    let e = TypeMappingError::NotFound("()".to_string());
    assert_eq!(e.to_string(), "Type mapping not found for ()");
}
