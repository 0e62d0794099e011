//! The binding builder: a queue of contracts to build against one
//! generator, built in the order of their registration and given up at
//! the first failure.
//!
//! The builder does not read or decode documents itself. It says which
//! binding comes next, takes the decoded document or the failure to get
//! it, and decides how the build goes on.
use crate::error::{BindError, BindErrorView, ProtocolError};
use crate::executor::{refused, stopped_within, Executor};
use crate::generate::{
    lifecycle, received_all, with_fields, Call, Contract, ContractDescriptor, ContractView,
    Generator,
};
use crate::json::{check_fields, fields_wf, AbiField, HardhatArtifact};
use crate::tuples::Shape;
use vstd::prelude::*;
use vstd::string::*;

verus! {

/// Where the document of a contract comes from.
#[derive(Debug)]
pub enum Source {
    /// The document itself.
    Json(String),
    /// The path of the file that holds the document; it is read when
    /// the contract's turn comes.
    File(String),
}

/// What kind of document describes a contract.
#[derive(Debug, Clone, Copy, PartialEq, Eq, Structural)]
pub enum Format {
    /// A plain list of fields.
    Abi,
    /// A build artifact: the fields with the bytecode.
    Hardhat,
}

/// A contract that was registered for the build.
#[derive(Debug)]
pub struct Binding {
    pub contract_name: String,
    pub source: Source,
    pub format: Format,
}

/// A decoded document.
#[derive(Debug)]
pub enum Document {
    Abi(Vec<AbiField>),
    Hardhat(HardhatArtifact),
}

impl Document {
    /// The contract that the document describes, under the name `name`:
    /// an artifact brings its bytecode, a list of fields has none.
    pub open spec fn contract(&self, name: Seq<char>) -> ContractView {
        match *self {
            Document::Abi(fields) => ContractView { name, fields: fields@, bytecode: None },
            Document::Hardhat(artifact) => ContractView {
                name,
                fields: artifact.abi@,
                bytecode: Some(artifact.bytecode@),
            },
        }
    }
}

impl Document {
    /// The fields that the document lists.
    pub open spec fn fields(&self) -> Seq<AbiField> {
        match *self {
            Document::Abi(fields) => fields@,
            Document::Hardhat(artifact) => artifact.abi@,
        }
    }

    /// The invariant of a document: every parameter in it has
    /// components exactly when the leaf of its type is the tuple type,
    /// and every type in it is well formed.
    pub open spec fn wf(&self) -> bool {
        fields_wf(self.fields())
    }

    /// Whether the document keeps the invariant of the data model.
    pub fn is_well_formed(&self) -> (r: bool)
        ensures
            r == self.wf(),
    {
        match self {
            Document::Abi(fields) => check_fields(fields),
            Document::Hardhat(artifact) => check_fields(&artifact.abi),
        }
    }
}

/// What is reported of a document that breaks the invariant of the
/// data model.
pub open spec fn ill_formed() -> Seq<char> {
    "a parameter has components without a tuple type, a tuple type without components, or a type out of range"@
}

/// A queue of contracts and the generator they are built against.
pub struct BindingBuilder<G: Generator> {
    generator: G,
    executor: Executor,
    builders: Vec<Binding>,
    contracts: Vec<Contract>,
    failure: Option<BindError>,
}

impl<G: Generator> BindingBuilder<G> {
    /// The registered contracts, in the order of their registration.
    pub closed spec fn queue(&self) -> Seq<Binding> {
        self.builders@
    }

    /// The generator that the contracts are built against.
    pub closed spec fn generator(&self) -> G {
        self.generator
    }

    /// What the generator handed back for the contracts built so far,
    /// in the order of the queue.
    pub closed spec fn contracts(&self) -> Seq<Contract> {
        self.contracts@
    }

    /// The number of contracts built so far.
    pub open spec fn built(&self) -> nat {
        self.contracts().len()
    }

    /// The first failure of the build, if it has failed.
    pub closed spec fn failure(&self) -> Option<BindError> {
        self.failure
    }

    /// The calls made to the generator so far.
    pub closed spec fn journal(&self) -> Seq<Call> {
        self.executor.journal()
    }

    /// The tuple shapes of the contract built last.
    pub closed spec fn registry(&self) -> Seq<Shape> {
        self.executor.registry()
    }

    /// The invariant of the builder: between two contracts no scope is
    /// open, and after a failure nothing built is kept.
    pub closed spec fn wf(&self) -> bool {
        &&& self.executor.wf()
        &&& !self.executor.is_open()
        &&& self.contracts@.len() <= self.builders@.len()
        &&& self.failure is Some ==> self.contracts@.len() == 0
    }

    /// Whether a contract is waiting for its document.
    pub open spec fn is_pending(&self) -> bool {
        self.failure() is None && self.built() < self.queue().len()
    }

    /// A builder for `generator`, with nothing registered.
    pub fn new(generator: G) -> (r: Self)
        ensures
            r.wf(),
            r.queue() == Seq::<Binding>::empty(),
            r.built() == 0,
            r.failure() is None,
            r.journal() == Seq::<Call>::empty(),
            r.generator() == generator,
    {
        BindingBuilder {
            generator,
            executor: Executor::new(),
            builders: Vec::new(),
            contracts: Vec::new(),
            failure: None,
        }
    }

    /// Registers a binding at the end of the queue.
    fn push(self, binding: Binding) -> (r: Self)
        requires
            self.wf(),
        ensures
            r.wf(),
            r.queue() == self.queue().push(binding),
            r.contracts() == self.contracts(),
            r.failure() == self.failure(),
            r.journal() == self.journal(),
            r.generator() == self.generator(),
    {
        let mut r = self;
        r.builders.push(binding);
        r
    }

    /// Registers the contract `contract_name`, described by the list of
    /// fields in the document `contract`.
    pub fn bind(self, contract_name: &str, contract: &str) -> (r: Self)
        requires
            self.wf(),
        ensures
            r.wf(),
            r.queue().len() == self.queue().len() + 1,
            r.queue().drop_last() == self.queue(),
            r.queue().last().contract_name@ == contract_name@,
            r.queue().last().source matches Source::Json(text) && text@ == contract@,
            r.queue().last().format == Format::Abi,
            r.contracts() == self.contracts(),
            r.failure() == self.failure(),
            r.journal() == self.journal(),
            r.generator() == self.generator(),
    {
        let ghost before = self.queue();
        let r = self.push(
            Binding {
                contract_name: String::from_str(contract_name),
                source: Source::Json(String::from_str(contract)),
                format: Format::Abi,
            },
        );
        assert(r.queue().drop_last() =~= before);
        r
    }

    /// Registers the contract `contract_name`, described by the build
    /// artifact in the document `contract`.
    pub fn bind_hardhat(self, contract_name: &str, contract: &str) -> (r: Self)
        requires
            self.wf(),
        ensures
            r.wf(),
            r.queue().len() == self.queue().len() + 1,
            r.queue().drop_last() == self.queue(),
            r.queue().last().contract_name@ == contract_name@,
            r.queue().last().source matches Source::Json(text) && text@ == contract@,
            r.queue().last().format == Format::Hardhat,
            r.contracts() == self.contracts(),
            r.failure() == self.failure(),
            r.journal() == self.journal(),
            r.generator() == self.generator(),
    {
        let ghost before = self.queue();
        let r = self.push(
            Binding {
                contract_name: String::from_str(contract_name),
                source: Source::Json(String::from_str(contract)),
                format: Format::Hardhat,
            },
        );
        assert(r.queue().drop_last() =~= before);
        r
    }

    /// Registers the contract `contract_name`, described by the list of
    /// fields in the file at `path`.
    pub fn bind_file(self, contract_name: &str, path: &str) -> (r: Self)
        requires
            self.wf(),
        ensures
            r.wf(),
            r.queue().len() == self.queue().len() + 1,
            r.queue().drop_last() == self.queue(),
            r.queue().last().contract_name@ == contract_name@,
            r.queue().last().source matches Source::File(file) && file@ == path@,
            r.queue().last().format == Format::Abi,
            r.contracts() == self.contracts(),
            r.failure() == self.failure(),
            r.journal() == self.journal(),
            r.generator() == self.generator(),
    {
        let ghost before = self.queue();
        let r = self.push(
            Binding {
                contract_name: String::from_str(contract_name),
                source: Source::File(String::from_str(path)),
                format: Format::Abi,
            },
        );
        assert(r.queue().drop_last() =~= before);
        r
    }

    /// Registers the contract `contract_name`, described by the build
    /// artifact in the file at `path`.
    pub fn bind_hardhat_file(self, contract_name: &str, path: &str) -> (r: Self)
        requires
            self.wf(),
        ensures
            r.wf(),
            r.queue().len() == self.queue().len() + 1,
            r.queue().drop_last() == self.queue(),
            r.queue().last().contract_name@ == contract_name@,
            r.queue().last().source matches Source::File(file) && file@ == path@,
            r.queue().last().format == Format::Hardhat,
            r.contracts() == self.contracts(),
            r.failure() == self.failure(),
            r.journal() == self.journal(),
            r.generator() == self.generator(),
    {
        let ghost before = self.queue();
        let r = self.push(
            Binding {
                contract_name: String::from_str(contract_name),
                source: Source::File(String::from_str(path)),
                format: Format::Hardhat,
            },
        );
        assert(r.queue().drop_last() =~= before);
        r
    }

    /// The binding whose document the build needs next: the first that
    /// is not built yet, and none once the build has failed.
    pub fn pending(&self) -> (r: Option<&Binding>)
        requires
            self.wf(),
        ensures
            r is Some == self.is_pending(),
            r is Some ==> *r->0 == self.queue()[self.built() as int],
    {
        if self.failure.is_none() && self.contracts.len() < self.builders.len() {
            Some(&self.builders[self.contracts.len()])
        } else {
            None
        }
    }

    /// Takes the document of the pending binding, or the failure to
    /// read or decode it, and builds the contract. A document that
    /// breaks the invariant of the data model is malformed. A failure,
    /// of the document or of the build, ends the whole build: it is kept
    /// as the first failure and nothing built before is retained. Says
    /// whether the contract was built. Without a pending binding nothing
    /// is done.
    pub fn supply(&mut self, document: Result<Document, BindError>) -> (r: bool)
        requires
            old(self).wf(),
        ensures
            final(self).wf(),
            final(self).queue() == old(self).queue(),
            !old(self).is_pending() ==> {
                &&& !r
                &&& final(self).contracts() == old(self).contracts()
                &&& final(self).failure() == old(self).failure()
                &&& final(self).journal() == old(self).journal()
                &&& final(self).generator() == old(self).generator()
            },
            old(self).is_pending() ==> match document {
                Err(e) => {
                    &&& !r
                    &&& final(self).failure() == Some(e)
                    &&& final(self).built() == 0
                    &&& final(self).journal() == old(self).journal()
                    &&& final(self).generator() == old(self).generator()
                },
                Ok(d) => if !d.wf() {
                    &&& !r
                    &&& final(self).failure() is Some
                    &&& final(self).failure()->0@ == BindErrorView::Parse(ill_formed())
                    &&& final(self).built() == 0
                    &&& final(self).journal() == old(self).journal()
                    &&& final(self).generator() == old(self).generator()
                } else {
                    let contract = d.contract(
                        old(self).queue()[old(self).built() as int].contract_name@,
                    );
                    &&& final(self).registry() == with_fields(
                        Seq::empty(),
                        contract.fields,
                        contract.fields.len() as int,
                    )
                    &&& r ==> final(self).failure() is None && final(self).built() == old(self).built()
                        + 1 && final(self).contracts().drop_last() == old(self).contracts()
                        && final(self).journal() == old(self).journal() + lifecycle(
                        contract,
                        final(self).registry(),
                    )
                    &&& !r ==> final(self).failure() is Some && final(self).built() == 0
                        && stopped_within(
                        old(self).journal(),
                        final(self).journal(),
                        lifecycle(contract, final(self).registry()),
                    )
                    &&& received_all(
                        old(self).generator().received(),
                        final(self).generator().received(),
                        final(self).journal().skip(old(self).journal().len() as int),
                    )
                    &&& old(self).generator().infallible() ==> r && final(self).generator().infallible()
                },
            },
    {
        if self.failure.is_some() || self.contracts.len() >= self.builders.len() {
            return false;
        }
        let document = match document {
            Ok(document) => document,
            Err(e) => {
                self.failure = Some(e);
                self.contracts = Vec::new();
                return false;
            },
        };
        if !document.is_well_formed() {
            self.failure = Some(
                BindError::Parse(
                    String::from_str(
                        "a parameter has components without a tuple type, a tuple type without components, or a type out of range",
                    ),
                ),
            );
            self.contracts = Vec::new();
            return false;
        }
        let name = self.builders[self.contracts.len()].contract_name.as_str();
        let outcome = match &document {
            Document::Abi(fields) => {
                let contract = ContractDescriptor::from_abi(name, fields);
                assert(contract@ == document.contract(name@));
                self.executor.generate_one(&mut self.generator, &contract)
            },
            Document::Hardhat(artifact) => {
                let contract = ContractDescriptor::from_hardhat(name, artifact);
                assert(contract@ == document.contract(name@));
                self.executor.generate_one(&mut self.generator, &contract)
            },
        };
        match outcome {
            Ok(contract) => {
                let ghost before = self.contracts@;
                self.contracts.push(contract);
                assert(self.contracts@.drop_last() =~= before);
                true
            },
            Err(e) => {
                self.failure = Some(e);
                self.contracts = Vec::new();
                false
            },
        }
    }

    /// Ends the build: the generator with the generated contracts, in
    /// the order of their registration, if every registered contract was
    /// built; else the first failure, or a refusal if contracts are
    /// still pending.
    pub fn finalize(self) -> (r: Result<(G, Vec<Contract>), BindError>)
        requires
            self.wf(),
        ensures
            match self.failure() {
                Some(e) => r == Err::<(G, Vec<Contract>), BindError>(e),
                None => if self.built() < self.queue().len() {
                    refused(r, ProtocolError::Unfinished)
                } else {
                    r is Ok && (r->Ok_0).0 == self.generator() && (r->Ok_0).1@ == self.contracts()
                        && self.built() == self.queue().len()
                },
            },
    {
        match self.failure {
            Some(e) => Err(e),
            None => {
                if self.contracts.len() < self.builders.len() {
                    Err(BindError::Protocol(ProtocolError::Unfinished))
                } else {
                    Ok((self.generator, self.contracts))
                }
            },
        }
    }
}

impl<G: Generator + Default> Default for BindingBuilder<G> {
    /// A builder for the default generator, with nothing registered.
    fn default() -> (r: Self)
        ensures
            r.wf(),
            r.queue() == Seq::<Binding>::empty(),
            r.built() == 0,
            r.failure() is None,
            r.journal() == Seq::<Call>::empty(),
    {
        BindingBuilder::new(G::default())
    }
}

} // verus!
