use ethbind::executor::{tuple_key_of, Executor};
use ethbind::json::{default_parameters, Parameter, SimpleType, Type};

fn scalar(name: &str, descriptor: &str) -> Parameter {
    Parameter {
        name: name.to_string(),
        ty: Type::parse(descriptor).expect("a descriptor"),
        components: None,
        indexed: false,
    }
}

fn tuple(name: &str, fields: Vec<Parameter>) -> Parameter {
    Parameter {
        name: name.to_string(),
        ty: Type::Simple(SimpleType::Tuple),
        components: Some(fields),
        indexed: false,
    }
}

#[test]
fn flat_tuples_share_one_key() {
    let first = vec![scalar("a", "address"), scalar("b", "uint256")];
    let second = vec![scalar("c", "bool"), scalar("d", "string")];
    assert_eq!(tuple_key_of(&first), "()");
    assert_eq!(tuple_key_of(&second), "()");
    assert_eq!(tuple_key_of(&vec![]), "()");
}

#[test]
fn keys_follow_the_nesting() {
    let inner = tuple("inner", vec![scalar("x", "uint8")]);
    let deeper = tuple("deeper", vec![scalar("y", "uint8"), inner.clone()]);
    let outer = vec![scalar("z", "bool"), inner, scalar("w", "bool"), deeper];
    assert_eq!(tuple_key_of(&outer), "((),(()))");
}

#[test]
fn first_writer_wins() {
    let mut executor = Executor::new();
    let first = vec![scalar("a", "address"), scalar("b", "uint256")];
    let second = vec![scalar("c", "bool")];
    assert_eq!(executor.tuple_name(&first), "()");
    assert_eq!(executor.tuple_name(&second), "()");
    assert_eq!(executor.tuples().len(), 1);
    assert_eq!(executor.tuples()[0].key(), "()");
    assert_eq!(executor.tuples()[0].fields().len(), 2);
    assert_eq!(executor.tuples()[0].fields()[0].name, "a");
    executor.add_tuple("()", &second);
    assert_eq!(executor.tuples()[0].fields().len(), 2);
    executor.add_tuple("other", &second);
    assert_eq!(executor.tuples().len(), 2);
    assert!(executor.contains_tuple("other"));
    assert!(!executor.contains_tuple("missing"));
}

#[test]
fn children_are_registered_before_their_parent() {
    let mut executor = Executor::new();
    let inner = tuple("inner", vec![scalar("x", "uint8")]);
    let outer = vec![inner, scalar("z", "bool")];
    assert_eq!(executor.register_tuple(&outer), "(())");
    let keys: Vec<String> = executor.tuples().iter().map(|t| t.key().to_string()).collect();
    assert_eq!(keys, vec!["()", "(())"]);
    assert_eq!(executor.tuples()[0].fields()[0].name, "x");
}

#[test]
fn tuple_paths_are_recorded_once() {
    let mut executor = Executor::new();
    assert!(executor.register_tuple_mapping("()", "First".to_string()));
    assert!(!executor.register_tuple_mapping("()", "Second".to_string()));
    assert!(executor.register_tuple_mapping("(())", "Third".to_string()));
}

#[test]
fn a_function_without_parameters_has_an_empty_list() {
    assert!(default_parameters().is_empty());
    let mut executor = Executor::new();
    executor.register_parameters(&default_parameters());
    assert!(executor.tuples().is_empty());
}

#[test]
fn registering_twice_changes_nothing() {
    let mut executor = Executor::new();
    let inner = tuple("inner", vec![scalar("x", "uint8")]);
    let outer = vec![inner, scalar("z", "bool")];
    executor.register_tuple(&outer);
    let before: Vec<String> = executor.tuples().iter().map(|t| t.key().to_string()).collect();
    assert_eq!(executor.register_tuple(&outer), "(())");
    let after: Vec<String> = executor.tuples().iter().map(|t| t.key().to_string()).collect();
    assert_eq!(before, after);
    executor.reset();
    assert!(executor.tuples().is_empty());
}
