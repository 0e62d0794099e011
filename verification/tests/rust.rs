use ethbind::error::{AbiError, BindError, ProtocolError, TypeMappingError};
use ethbind::generate::{Contract, File};
use ethbind::json::{DecodeSource, Event, Parameter, SimpleType, StateMutability, Type};
use ethbind::rust::{
    RustPretty, contract_ident, event_ident, field_path, generic_name, insert_turbofish, module_ident,
    sends_transaction, tuple_path, turbofish, variable_name,
};
use ethbind::text::{decimal_string, replace};

fn input(name: &str, indexed: bool) -> Parameter {
    Parameter {
        name: name.to_string(),
        ty: Type::Simple(SimpleType::Address),
        components: None,
        indexed,
    }
}

#[test]
fn names_follow_the_conventions_of_the_target() {
    assert_eq!(variable_name(&input("WETH_", false), 0), "weth");
    assert_eq!(variable_name(&input("tokenId", false), 3), "token_id");
    assert_eq!(variable_name(&input("", false), 3), "p3");
    assert_eq!(generic_name(12), "P12");
    assert_eq!(field_path("order", 0), "order.0");
    assert_eq!(contract_ident("test_token"), "TestToken");
    assert_eq!(module_ident("TestToken"), "test_token");
    assert_eq!(event_ident("test", "makerBurn"), "TestMakerBurn");
}

#[test]
fn tuples_are_named_after_their_structure() {
    assert_eq!(tuple_path("Test", "struct Market.Order"), "TestMarketOrder");
    assert_eq!(tuple_path("Test", "()"), "TestTuple()");
    assert_eq!(tuple_path("Test", "struct"), "TestTuplestruct");
}

#[test]
fn generic_arguments_get_a_turbofish() {
    assert_eq!(turbofish("Int<false,256>"), "Int::<false,256>");
    assert_eq!(turbofish("Address"), "Address");
    assert_eq!(turbofish("Vec<Int<false,256>>"), "Vec::<Int<false,256>>");
    assert_eq!(
        insert_turbofish("A<b> A<b> C<d>", &vec!["<b>".to_string(), "<d>".to_string()]),
        "A::<b> A::<b> C::<d>"
    );
}

#[test]
fn reading_functions_are_called_without_a_transaction() {
    assert!(!sends_transaction(StateMutability::Pure));
    assert!(!sends_transaction(StateMutability::View));
    assert!(sends_transaction(StateMutability::Nonpayable));
    assert!(sends_transaction(StateMutability::Payable));
}

#[test]
fn event_inputs_are_found_by_their_place() {
    let mut event = Event {
        name: "Delist".to_string(),
        inputs: vec![
            input("owner", true),
            input("memo", false),
            input("id", true),
            input("note", false),
            input("to", true),
        ],
        anonymous: false,
    };
    assert_eq!(
        event.decode_plan(),
        vec![
            DecodeSource::Topic(1),
            DecodeSource::Data(0),
            DecodeSource::Topic(2),
            DecodeSource::Data(1),
            DecodeSource::Topic(3),
        ]
    );
    event.anonymous = true;
    assert_eq!(
        event.decode_plan(),
        vec![
            DecodeSource::Topic(0),
            DecodeSource::Data(0),
            DecodeSource::Topic(1),
            DecodeSource::Data(1),
            DecodeSource::Topic(2),
        ]
    );
    event.inputs.clear();
    assert_eq!(event.decode_plan(), vec![]);
}

#[test]
fn text_helpers_have_exact_values() {
    assert_eq!(decimal_string(0), "0");
    assert_eq!(decimal_string(9), "9");
    assert_eq!(decimal_string(10), "10");
    assert_eq!(decimal_string(256), "256");
    assert_eq!(decimal_string(usize::MAX), usize::MAX.to_string());
    assert_eq!(replace("aaa", "aa", "b"), "ba");
    assert_eq!(replace("$m and $m", "$m", "8"), "8 and 8");
    assert_eq!(replace("abc", "", "-"), "-a-b-c-");
    assert_eq!(replace("", "", "-"), "-");
    assert_eq!(replace("abc", "abcd", "x"), "abc");
    assert_eq!(replace("äb€", "b", "ß"), "äß€");
}

#[test]
fn formatting_keeps_the_fragments() {
    let mut contract = Contract {
        files: vec![File { name: "test.rs".to_string(), data: "struct Test ;".to_string() }],
    };
    contract.pretty().expect("Call pretty");
    assert_eq!(contract.files.len(), 1);
    assert_eq!(contract.files[0].data, "struct Test ;");
}

#[test]
fn every_failure_has_its_message() {
    let abi = AbiError::Tuple("tuple".to_string(), "no components".to_string());
    assert_eq!(abi.to_string(), "Invalid tuple type declare tuple, no components");
    let wrapped = BindError::Abi(AbiError::ArrayM("x".to_string(), "<type>[M]".to_string()));
    assert_eq!(wrapped.to_string(), "Invalid fixed-length Array type declare x, <type>[M]");
    let wrapped = BindError::Abi(AbiError::Array("x".to_string(), "<type>[]".to_string()));
    assert_eq!(wrapped.to_string(), "Invalid Array type declare x, <type>[]");
    let wrapped = BindError::Abi(AbiError::FixedMN("fixed7x1".to_string(), "M".to_string()));
    assert_eq!(wrapped.to_string(), "Invalid fixed type declare fixed7x1, M");
    let wrapped = BindError::Abi(AbiError::IntegerM("int7".to_string(), "M".to_string()));
    assert_eq!(wrapped.to_string(), "Invalid integer type declare int7, M");
    let wrapped = BindError::Mapping(TypeMappingError::NotFound("bool".to_string()));
    assert_eq!(wrapped.to_string(), "Type mapping not found for bool");
    assert_eq!(
        BindError::Parse("unexpected end".to_string()).to_string(),
        "Malformed input document: unexpected end"
    );
    assert_eq!(ProtocolError::AlreadyOpen.to_string(), "a contract scope is already open");
    assert_eq!(ProtocolError::NoDeployData.to_string(), "the contract has no deploy data");
    assert_eq!(ProtocolError::DeployedTwice.to_string(), "the deploy binding was already emitted");
    assert_eq!(ProtocolError::Unfinished.to_string(), "contracts are still to be built");
}
