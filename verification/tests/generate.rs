use ethbind::error::{BindError, ProtocolError};
use ethbind::builder::{BindingBuilder, Document};
use ethbind::executor::Executor;
use ethbind::generate::{Contract, ContractDescriptor, File, Generator};
use ethbind::json::{
    AbiField, Constructor, Error, Event, Function, Parameter, SimpleType, StateMutability, Type,
};

/// A generator that writes down the calls it receives.
#[derive(Default)]
struct Recorder {
    calls: Vec<String>,
}

impl Generator for Recorder {
    fn begin(&mut self, _ctx: &Executor, contract_name: &str) -> Result<(), BindError> {
        self.calls.push(format!("begin {}", contract_name));
        Ok(())
    }

    fn generate_tuple(
        &mut self,
        _ctx: &Executor,
        key: &str,
        tuple: &Vec<Parameter>,
    ) -> Result<String, BindError> {
        self.calls.push(format!("tuple {} {}", key, tuple.len()));
        Ok(format!("Tuple{}", self.calls.len()))
    }

    fn generate_deploy(
        &mut self,
        _ctx: &Executor,
        bytecode: &str,
        inputs: &Vec<Parameter>,
    ) -> Result<(), BindError> {
        self.calls.push(format!("deploy {} {}", bytecode, inputs.len()));
        Ok(())
    }

    fn generate_function(&mut self, _ctx: &Executor, function: &Function) -> Result<(), BindError> {
        self.calls.push(format!("function {}", function.name));
        Ok(())
    }

    fn generate_event(&mut self, _ctx: &Executor, event: &Event) -> Result<(), BindError> {
        self.calls.push(format!("event {}", event.name));
        Ok(())
    }

    fn generate_error(&mut self, _ctx: &Executor, error: &Error) -> Result<(), BindError> {
        self.calls.push(format!("error {}", error.name));
        Ok(())
    }

    fn finalize(&mut self, _ctx: &Executor) -> Result<Contract, BindError> {
        self.calls.push("finalize".to_string());
        Ok(Contract {
            files: vec![File { name: "calls".to_string(), data: self.calls.join("\n") }],
        })
    }
}

fn scalar(name: &str, ty: SimpleType) -> Parameter {
    Parameter { name: name.to_string(), ty: Type::Simple(ty), components: None, indexed: false }
}

#[test]
fn gen_test_gen() {
    let fields = vec![
        AbiField::Constructor(Constructor {
            inputs: vec![scalar("WETH_", SimpleType::Address)],
            state_mutability: StateMutability::Nonpayable,
        }),
        AbiField::Event(Event {
            name: "Delist".to_string(),
            inputs: vec![scalar("owner", SimpleType::Address)],
            anonymous: false,
        }),
        AbiField::Function(Function {
            name: "list".to_string(),
            inputs: vec![Parameter {
                name: "order".to_string(),
                ty: Type::Simple(SimpleType::Tuple),
                components: Some(vec![scalar("maker", SimpleType::Address)]),
                indexed: false,
            }],
            outputs: vec![],
            state_mutability: StateMutability::Payable,
        }),
        AbiField::Error(Error { name: "DelistError".to_string(), inputs: vec![] }),
    ];
    let contract = ContractDescriptor { name: "Test", fields: &fields, bytecode: Some("0x6080") };
    let mut recorder = Recorder { calls: vec![] };
    let mut executor = Executor::new();
    let artifact = executor.generate_one(&mut recorder, &contract).expect("Generate data");
    assert_eq!(
        recorder.calls,
        vec![
            "begin Test",
            "tuple () 1",
            "event Delist",
            "function list",
            "error DelistError",
            "deploy 0x6080 1",
            "finalize",
        ]
    );
    assert_eq!(artifact.files.len(), 1);
    assert!(!executor.in_scope());
}

fn sample_fields() -> Vec<AbiField> {
    vec![
        AbiField::Constructor(Constructor {
            inputs: vec![scalar("WETH_", SimpleType::Address)],
            state_mutability: StateMutability::Nonpayable,
        }),
        AbiField::Function(Function {
            name: "owner".to_string(),
            inputs: vec![],
            outputs: vec![scalar("", SimpleType::Address)],
            state_mutability: StateMutability::View,
        }),
    ]
}

#[test]
fn an_interface_without_bytecode_gets_no_deploy_binding() {
    let fields = sample_fields();
    let contract = ContractDescriptor::from_abi("Test", &fields);
    let mut recorder = Recorder { calls: vec![] };
    let mut executor = Executor::new();
    executor.generate_one(&mut recorder, &contract).expect("Generate data");
    assert_eq!(recorder.calls, vec!["begin Test", "function owner", "finalize"]);
}

#[test]
fn receive_and_fallback_are_never_emitted() {
    let fields = vec![
        AbiField::Receive(ethbind::json::Receive { state_mutability: StateMutability::Payable }),
        AbiField::Fallback(ethbind::json::Fallback { state_mutability: StateMutability::Payable }),
    ];
    let contract = ContractDescriptor { name: "Vault", fields: &fields, bytecode: Some("0x00") };
    let mut recorder = Recorder { calls: vec![] };
    let mut executor = Executor::new();
    executor.generate_one(&mut recorder, &contract).expect("Generate data");
    assert_eq!(recorder.calls, vec!["begin Vault", "deploy 0x00 0", "finalize"]);
}

#[test]
fn calls_out_of_turn_are_refused() {
    let mut recorder = Recorder { calls: vec![] };
    let mut executor = Executor::new();
    let function = Function {
        name: "owner".to_string(),
        inputs: vec![],
        outputs: vec![],
        state_mutability: StateMutability::View,
    };
    let event = Event { name: "E".to_string(), inputs: vec![], anonymous: true };
    let error = Error { name: "F".to_string(), inputs: vec![] };
    let not_open = Err(BindError::Protocol(ProtocolError::NotOpen));
    assert_eq!(executor.emit_function(&mut recorder, &function), not_open);
    assert_eq!(executor.emit_event(&mut recorder, &event), not_open);
    assert_eq!(executor.emit_error(&mut recorder, &error), not_open);
    assert_eq!(executor.emit_deploy(&mut recorder, Some("0x"), &vec![]), not_open);
    assert!(matches!(
        executor.finalize(&mut recorder),
        Err(BindError::Protocol(ProtocolError::NotOpen))
    ));
    assert!(recorder.calls.is_empty());

    executor.begin(&mut recorder, "Test").expect("a scope opens");
    assert_eq!(
        executor.begin(&mut recorder, "Other"),
        Err(BindError::Protocol(ProtocolError::AlreadyOpen))
    );
    assert_eq!(
        executor.emit_deploy(&mut recorder, None, &vec![]),
        Err(BindError::Protocol(ProtocolError::NoDeployData))
    );
    executor.emit_deploy(&mut recorder, Some("0x"), &vec![]).expect("the first deploy");
    assert_eq!(
        executor.emit_deploy(&mut recorder, Some("0x"), &vec![]),
        Err(BindError::Protocol(ProtocolError::DeployedTwice))
    );
    executor.emit_function(&mut recorder, &function).expect("within the scope");
    executor.finalize(&mut recorder).expect("the scope closes");
    assert_eq!(executor.emit_function(&mut recorder, &function), not_open);
    assert_eq!(
        recorder.calls,
        vec!["begin Test", "deploy 0x 0", "function owner", "finalize"]
    );
    assert_eq!(
        BindError::Protocol(ProtocolError::NotOpen).to_string(),
        "Generation protocol violated: no contract scope is open"
    );
}

/// A generator that fails at one call and writes down the others.
struct Failing {
    calls: Vec<String>,
    fail_at: usize,
}

impl Failing {
    fn note(&mut self, call: &str) -> Result<(), BindError> {
        self.calls.push(call.to_string());
        if self.calls.len() == self.fail_at {
            Err(BindError::Generator(format!("gave up at {}", call)))
        } else {
            Ok(())
        }
    }
}

impl Generator for Failing {
    fn begin(&mut self, _ctx: &Executor, _contract_name: &str) -> Result<(), BindError> {
        self.note("begin")
    }

    fn generate_tuple(
        &mut self,
        _ctx: &Executor,
        _key: &str,
        _tuple: &Vec<Parameter>,
    ) -> Result<String, BindError> {
        self.note("tuple").map(|_| "T".to_string())
    }

    fn generate_deploy(
        &mut self,
        _ctx: &Executor,
        _bytecode: &str,
        _inputs: &Vec<Parameter>,
    ) -> Result<(), BindError> {
        self.note("deploy")
    }

    fn generate_function(&mut self, _ctx: &Executor, _function: &Function) -> Result<(), BindError> {
        self.note("function")
    }

    fn generate_event(&mut self, _ctx: &Executor, _event: &Event) -> Result<(), BindError> {
        self.note("event")
    }

    fn generate_error(&mut self, _ctx: &Executor, _error: &Error) -> Result<(), BindError> {
        self.note("error")
    }

    fn finalize(&mut self, _ctx: &Executor) -> Result<Contract, BindError> {
        self.note("finalize").map(|_| Contract { files: vec![] })
    }
}

#[test]
fn the_first_failure_ends_the_build() {
    let fields = sample_fields();
    let contract = ContractDescriptor { name: "Test", fields: &fields, bytecode: Some("0x") };
    for fail_at in 1..=4 {
        let mut generator = Failing { calls: vec![], fail_at };
        let mut executor = Executor::new();
        let outcome = executor.generate_one(&mut generator, &contract);
        assert!(matches!(outcome, Err(BindError::Generator(_))));
        assert_eq!(generator.calls.len(), fail_at);
        assert!(!executor.in_scope());
        let all = ["begin", "function", "deploy", "finalize"];
        assert_eq!(generator.calls, all[..fail_at].to_vec());
    }
    let mut generator = Failing { calls: vec![], fail_at: 0 };
    let mut executor = Executor::new();
    executor.generate_one(&mut generator, &contract).expect("nothing fails");
    assert_eq!(
        BindError::Generator("x".to_string()).to_string(),
        "Generator failed: x"
    );
}

#[test]
fn tuples_are_emitted_by_their_key() {
    let mut recorder = Recorder { calls: vec![] };
    let mut executor = Executor::new();
    let fields = vec![scalar("maker", SimpleType::Address), scalar("amount", SimpleType::Uint)];
    assert_eq!(executor.register_tuple(&fields), "()");
    assert_eq!(
        executor.emit_tuple(&mut recorder, "()"),
        Err(BindError::Protocol(ProtocolError::NotOpen))
    );
    executor.begin(&mut recorder, "Test").expect("a scope opens");
    assert_eq!(
        executor.emit_tuple(&mut recorder, "(())"),
        Err(BindError::Mapping(ethbind::error::TypeMappingError::NotFound("(())".to_string())))
    );
    assert!(executor.in_scope());
    executor.emit_tuple(&mut recorder, "()").expect("the tuple is registered");
    assert!(!executor.register_tuple_mapping("()", "Other".to_string()));
    executor.finalize(&mut recorder).expect("the scope closes");
    assert_eq!(recorder.calls, vec!["begin Test", "tuple () 2", "finalize"]);
}

#[test]
fn defaults_start_with_nothing() {
    let executor = Executor::default();
    assert!(executor.tuples().is_empty());
    assert!(!executor.in_scope());
    let mut builder = BindingBuilder::<Recorder>::default();
    assert!(builder.pending().is_none());
    builder = builder.bind("Test", "[]");
    assert!(builder.supply(Ok(Document::Abi(sample_fields()))));
    let (recorder, contracts) = builder.finalize().expect("the build succeeds");
    assert_eq!(recorder.calls, vec!["begin Test", "function owner", "finalize"]);
    assert_eq!(contracts.len(), 1);
}
