use ethbind::builder::{BindingBuilder, Document};
use ethbind::executor::Executor;
use ethbind::generate::{ContractDescriptor, Generator};
use ethbind::json::{
    AbiField, Constructor, Event, Function, HardhatArtifact, Parameter, Receive, SimpleType,
    StateMutability, Type,
};
use ethbind::recorder::{record, Recorder};

fn address(name: &str) -> Parameter {
    Parameter {
        name: name.to_string(),
        ty: Type::Simple(SimpleType::Address),
        components: None,
        indexed: false,
    }
}

fn calls(records: &[ethbind::recorder::Record]) -> Vec<String> {
    records.iter().map(|r| format!("{} {} {}", r.call, r.subject, r.parameters.len())).collect()
}

#[test]
fn a_constructor_with_bytecode_is_deployed_exactly_once() {
    let fields = vec![AbiField::Constructor(Constructor {
        inputs: vec![address("WETH_")],
        state_mutability: StateMutability::Nonpayable,
    })];
    let contract = ContractDescriptor { name: "Test", fields: &fields, bytecode: Some("0x6080") };
    let records = record(&contract);
    assert_eq!(calls(&records), vec!["begin Test 0", "deploy 0x6080 1", "finalize  0"]);
    let deploys: Vec<_> = records.iter().filter(|r| r.call == "deploy").collect();
    assert_eq!(deploys.len(), 1);
    assert_eq!(deploys[0].subject, "0x6080");
    assert_eq!(deploys[0].parameters.len(), 1);
    assert_eq!(deploys[0].parameters[0].name, "WETH_");
    assert_eq!(deploys[0].parameters[0].ty, Type::Simple(SimpleType::Address));
}

#[test]
fn the_lifecycle_is_written_down_call_for_call() {
    let order = Parameter {
        name: "order".to_string(),
        ty: Type::Simple(SimpleType::Tuple),
        components: Some(vec![address("maker")]),
        indexed: false,
    };
    let fields = vec![
        AbiField::Receive(Receive { state_mutability: StateMutability::Payable }),
        AbiField::Function(Function {
            name: "list".to_string(),
            inputs: vec![order, address("to")],
            outputs: vec![],
            state_mutability: StateMutability::Payable,
        }),
        AbiField::Event(Event { name: "Listed".to_string(), inputs: vec![], anonymous: false }),
    ];
    let bare = ContractDescriptor::from_abi("Market", &fields);
    assert_eq!(
        calls(&record(&bare)),
        vec!["begin Market 0", "tuple () 1", "function list 2", "event Listed 0", "finalize  0"]
    );
    let with_code = ContractDescriptor { name: "Market", fields: &fields, bytecode: Some("0x") };
    assert_eq!(
        calls(&record(&with_code)),
        vec![
            "begin Market 0",
            "tuple () 1",
            "function list 2",
            "event Listed 0",
            "deploy 0x 0",
            "finalize  0",
        ]
    );
}

#[test]
fn a_recorder_serves_as_a_generator() {
    let mut recorder = Recorder::new();
    let mut executor = Executor::new();
    executor.begin(&mut recorder, "Test").expect("a recorder never fails");
    assert_eq!(recorder.generate_tuple(&executor, "()", &vec![address("x")]).unwrap(), "()");
    executor.finalize(&mut recorder).expect("a recorder never fails");
    assert_eq!(calls(recorder.records()), vec!["begin Test 0", "tuple () 1", "finalize  0"]);

    let artifact = HardhatArtifact {
        contract_name: "Test".to_string(),
        source_name: "Test.sol".to_string(),
        abi: vec![],
        bytecode: "0x00".to_string(),
        deployed_bytecode: "0x00".to_string(),
    };
    let mut builder = BindingBuilder::new(Recorder::new()).bind_hardhat("Test", "{}");
    assert!(builder.supply(Ok(Document::Hardhat(artifact))));
    let (recorder, contracts) = builder.finalize().expect("the build succeeds");
    assert_eq!(contracts.len(), 1);
    assert_eq!(
        calls(&recorder.into_records()),
        vec!["begin Test 0", "deploy 0x00 0", "finalize  0"]
    );
}
