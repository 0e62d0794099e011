use ethbind::builder::{BindingBuilder, Document, Format, Source};
use ethbind::error::{BindError, ProtocolError};
use ethbind::executor::Executor;
use ethbind::generate::{Contract, File, Generator};
use ethbind::json::{
    AbiField, Constructor, Error, Event, Function, HardhatArtifact, Parameter, SimpleType,
    StateMutability, Type,
};
use ethbind::mapping::SerdeTypeMapping;

/// A generator that renders the deploy binding from templates.
struct Templates {
    mapping: SerdeTypeMapping,
    name: String,
    fragments: Vec<File>,
    deploys: Vec<Vec<String>>,
}

impl Templates {
    fn new() -> Self {
        let mut mapping = SerdeTypeMapping::new();
        mapping.insert("address", "Address");
        mapping.insert("rt_context", "Client");
        mapping.insert("rt_ops", "ClientOps");
        mapping.insert("rt_error", "anyhow::Error");
        mapping.insert("rt_tx_receipt", "TransactionReceipt");
        Templates { mapping, name: String::new(), fragments: vec![], deploys: vec![] }
    }

    fn template(&self, name: &str) -> Result<String, BindError> {
        self.mapping.get_mapping(name, &[]).map_err(BindError::Mapping)
    }
}

impl Generator for Templates {
    fn begin(&mut self, _ctx: &Executor, contract_name: &str) -> Result<(), BindError> {
        self.name = contract_name.to_string();
        self.fragments.clear();
        Ok(())
    }

    fn generate_tuple(
        &mut self,
        _ctx: &Executor,
        key: &str,
        _tuple: &Vec<Parameter>,
    ) -> Result<String, BindError> {
        Ok(ethbind::rust::tuple_path(&self.name, key))
    }

    fn generate_deploy(
        &mut self,
        ctx: &Executor,
        _bytecode: &str,
        inputs: &Vec<Parameter>,
    ) -> Result<(), BindError> {
        self.deploys.push(inputs.iter().map(|p| p.name.clone()).collect());
        let mut bounds = vec![];
        for (index, input) in inputs.iter().enumerate() {
            let mapped = ctx.mapping_parameter(&self.mapping, input).map_err(BindError::Mapping)?;
            bounds.push(format!("{}: TryInto<{}>", ethbind::rust::generic_name(index), mapped));
        }
        let data = format!(
            "fn deploy(context: {}, ops: {}) -> Result<{}, {}> where {}",
            self.template("rt_context")?,
            self.template("rt_ops")?,
            self.template("rt_tx_receipt")?,
            self.template("rt_error")?,
            bounds.join(", ")
        );
        self.fragments.push(File { name: "deploy".to_string(), data });
        Ok(())
    }

    fn generate_function(&mut self, _ctx: &Executor, _function: &Function) -> Result<(), BindError> {
        Ok(())
    }

    fn generate_event(&mut self, _ctx: &Executor, _event: &Event) -> Result<(), BindError> {
        Ok(())
    }

    fn generate_error(&mut self, _ctx: &Executor, _error: &Error) -> Result<(), BindError> {
        Ok(())
    }

    fn finalize(&mut self, _ctx: &Executor) -> Result<Contract, BindError> {
        Ok(Contract { files: std::mem::take(&mut self.fragments) })
    }
}

fn constructor_with_one_address() -> Vec<AbiField> {
    vec![AbiField::Constructor(Constructor {
        inputs: vec![Parameter {
            name: "WETH_".to_string(),
            ty: Type::Simple(SimpleType::Address),
            components: None,
            indexed: false,
        }],
        state_mutability: StateMutability::Nonpayable,
    })]
}

fn artifact() -> HardhatArtifact {
    HardhatArtifact {
        contract_name: "Test".to_string(),
        source_name: "contracts/Test.sol".to_string(),
        abi: constructor_with_one_address(),
        bytecode: "0x6080".to_string(),
        deployed_bytecode: "0x6080".to_string(),
    }
}

/// Decodes a document as far as this test needs it: the text must be
/// JSON, and what it describes is handed in.
fn decode(text: &str, described: Document) -> Result<Document, BindError> {
    match serde_json::from_str::<serde_json::Value>(text) {
        Ok(_) => Ok(described),
        Err(e) => Err(BindError::Parse(e.to_string())),
    }
}

#[test]
fn deploy_is_emitted_once_with_the_constructor_input() {
    let mut builder = BindingBuilder::new(Templates::new()).bind_hardhat("Test", "{\"abi\": []}");
    let text = match &builder.pending().expect("one contract is pending").source {
        Source::Json(text) => text.clone(),
        Source::File(_) => panic!("a literal document was registered"),
    };
    assert_eq!(builder.pending().expect("pending").format, Format::Hardhat);
    assert_eq!(builder.pending().expect("pending").contract_name, "Test");
    assert!(builder.supply(decode(&text, Document::Hardhat(artifact()))));
    assert!(builder.pending().is_none());
    let (generator, contracts) = builder.finalize().expect("the build succeeds");
    assert_eq!(generator.deploys, vec![vec!["WETH_".to_string()]]);
    assert_eq!(contracts.len(), 1);
    let deploy: Vec<&File> = contracts[0].files.iter().filter(|f| f.name == "deploy").collect();
    assert_eq!(deploy.len(), 1);
    assert_eq!(deploy[0].data.matches("Address").count(), 1);
    assert_eq!(
        deploy[0].data,
        "fn deploy(context: Client, ops: ClientOps) -> Result<TransactionReceipt, anyhow::Error> where P0: TryInto<Address>"
    );
}

#[test]
fn a_malformed_second_contract_leaves_no_artifact() {
    let mut builder = BindingBuilder::new(Templates::new())
        .bind("First", "[]")
        .bind("Second", "[{\"type\": \"function\", ");
    let first = match &builder.pending().expect("pending").source {
        Source::Json(text) => text.clone(),
        Source::File(_) => panic!("a literal document was registered"),
    };
    assert!(builder.supply(decode(&first, Document::Abi(constructor_with_one_address()))));
    let second = match &builder.pending().expect("pending").source {
        Source::Json(text) => text.clone(),
        Source::File(_) => panic!("a literal document was registered"),
    };
    assert_eq!(builder.pending().expect("pending").contract_name, "Second");
    assert!(!builder.supply(decode(&second, Document::Abi(vec![]))));
    assert!(builder.pending().is_none());
    assert!(!builder.supply(Ok(Document::Abi(vec![]))));
    match builder.finalize() {
        Err(BindError::Parse(_)) => {}
        Err(other) => panic!("unexpected failure {:?}", other),
        Ok((_, contracts)) => panic!("{} artifacts were kept", contracts.len()),
    }
}

#[test]
fn a_failing_generator_leaves_no_artifact() {
    let mut templates = Templates::new();
    templates.mapping = SerdeTypeMapping::new();
    let mut builder = BindingBuilder::new(templates).bind("First", "[]").bind_hardhat("Second", "{}");
    assert!(builder.supply(Ok(Document::Abi(constructor_with_one_address()))));
    assert!(!builder.supply(Ok(Document::Hardhat(artifact()))));
    match builder.finalize() {
        Err(BindError::Mapping(e)) => assert_eq!(e.to_string(), "Type mapping not found for address"),
        Err(other) => panic!("unexpected failure {:?}", other),
        Ok(_) => panic!("artifacts were kept"),
    }
}

#[test]
fn files_are_registered_for_later() {
    let builder = BindingBuilder::new(Templates::new())
        .bind_file("First", "abi/first.json")
        .bind_hardhat_file("Second", "artifacts/second.json");
    let pending = builder.pending().expect("pending");
    assert_eq!(pending.contract_name, "First");
    assert_eq!(pending.format, Format::Abi);
    assert!(matches!(&pending.source, Source::File(path) if path == "abi/first.json"));
    assert!(matches!(
        builder.finalize(),
        Err(BindError::Protocol(ProtocolError::Unfinished))
    ));
    let (_, contracts) = BindingBuilder::new(Templates::new()).finalize().expect("nothing to build");
    assert!(contracts.is_empty());
}

#[test]
fn a_document_that_breaks_the_data_model_is_malformed() {
    let stray = Parameter {
        name: "x".to_string(),
        ty: Type::Simple(SimpleType::Address),
        components: Some(vec![]),
        indexed: false,
    };
    assert!(!stray.is_well_formed());
    let bare = Parameter {
        name: "y".to_string(),
        ty: Type::parse("tuple[]").expect("a descriptor"),
        components: None,
        indexed: false,
    };
    assert!(!bare.is_well_formed());
    let wide = Parameter {
        name: "z".to_string(),
        ty: Type::IntegerM(ethbind::json::IntegerM { signed: false, m: 12 }),
        components: None,
        indexed: false,
    };
    assert!(!wide.is_well_formed());
    let nested = Parameter {
        name: "orders".to_string(),
        ty: Type::parse("tuple[2][]").expect("a descriptor"),
        components: Some(vec![Parameter {
            name: "inner".to_string(),
            ty: Type::Simple(SimpleType::Tuple),
            components: Some(vec![]),
            indexed: false,
        }]),
        indexed: false,
    };
    assert!(nested.is_well_formed());
    assert!(Type::parse("tuple[2][]").expect("a descriptor").has_tuple_leaf());
    assert!(!Type::parse("uint8[2][]").expect("a descriptor").has_tuple_leaf());

    let fields = vec![AbiField::Error(Error { name: "Bad".to_string(), inputs: vec![stray] })];
    assert!(!fields[0].is_well_formed());
    let document = Document::Abi(fields);
    assert!(!document.is_well_formed());
    let mut builder = BindingBuilder::new(Templates::new()).bind("First", "[]");
    assert!(!builder.supply(Ok(document)));
    match builder.finalize() {
        Err(BindError::Parse(text)) => assert!(text.starts_with("a parameter has components")),
        Err(other) => panic!("unexpected failure {:?}", other),
        Ok(_) => panic!("a malformed document was built"),
    }
}
