//! The generator protocol: what a target language implements, what it
//! hands back, and the order in which it is called.
use crate::error::BindError;
use crate::executor::Executor;
use crate::json::{
    parameters_view, AbiField, Error, Event, Function, HardhatArtifact, Parameter, ParameterView,
};
use crate::tuples::{with_children, Shape};
use vstd::prelude::*;

verus! {

/// The generated code of one contract: named text fragments, in order.
#[derive(Debug)]
pub struct Contract {
    pub files: Vec<File>,
}

/// One fragment of generated code, with its name.
#[derive(Debug)]
pub struct File {
    pub name: String,
    pub data: String,
}

/// A code generator for one target language. It is driven through a
/// fixed sequence for each contract: `begin`, `generate_tuple` for each
/// registered tuple shape, then `generate_function`, `generate_event`
/// and `generate_error` for the fields in their declared order,
/// `generate_deploy` if the contract has bytecode, and `finalize`.
///
/// A generator may keep track of the calls it receives and may declare
/// that none of its calls fails. One that says nothing of either, as a
/// generator written outside of verified code must, is held to nothing.
pub trait Generator {
    /// The calls that the generator has received so far, for a
    /// generator that keeps track of them.
    open spec fn received(&self) -> Option<Seq<Call>> {
        None
    }

    /// Whether no call of the generator fails.
    open spec fn infallible(&self) -> bool {
        false
    }

    /// Opens the scope of the contract `contract_name`.
    fn begin(&mut self, ctx: &Executor, contract_name: &str) -> (r: Result<(), BindError>)
        ensures
            receives(old(self).received(), final(self).received(), Call::Begin { name: contract_name@ }),
            old(self).infallible() ==> r is Ok && final(self).infallible(),
    ;

    /// Emits the definition of the tuple shape `key` and gives the path
    /// of the type that now stands for it.
    fn generate_tuple(&mut self, ctx: &Executor, key: &str, tuple: &Vec<Parameter>) -> (r: Result<
        String,
        BindError,
    >)
        ensures
            receives(
                old(self).received(),
                final(self).received(),
                Call::Tuple { key: key@, fields: parameters_view(tuple@) },
            ),
            old(self).infallible() ==> r is Ok && final(self).infallible(),
    ;

    /// Emits the deploy binding.
    fn generate_deploy(&mut self, ctx: &Executor, bytecode: &str, inputs: &Vec<Parameter>) -> (r:
        Result<(), BindError>)
        ensures
            receives(
                old(self).received(),
                final(self).received(),
                Call::Deploy { bytecode: bytecode@, inputs: parameters_view(inputs@) },
            ),
            old(self).infallible() ==> r is Ok && final(self).infallible(),
    ;

    /// Emits the binding of a function.
    fn generate_function(&mut self, ctx: &Executor, function: &Function) -> (r: Result<
        (),
        BindError,
    >)
        ensures
            receives(old(self).received(), final(self).received(), Call::Function(*function)),
            old(self).infallible() ==> r is Ok && final(self).infallible(),
    ;

    /// Emits the binding of an event.
    fn generate_event(&mut self, ctx: &Executor, event: &Event) -> (r: Result<(), BindError>)
        ensures
            receives(old(self).received(), final(self).received(), Call::Event(*event)),
            old(self).infallible() ==> r is Ok && final(self).infallible(),
    ;

    /// Emits the binding of an error.
    fn generate_error(&mut self, ctx: &Executor, error: &Error) -> (r: Result<(), BindError>)
        ensures
            receives(old(self).received(), final(self).received(), Call::Error(*error)),
            old(self).infallible() ==> r is Ok && final(self).infallible(),
    ;

    /// Closes the scope of the contract and gives what was generated for it.
    fn finalize(&mut self, ctx: &Executor) -> (r: Result<Contract, BindError>)
        ensures
            receives(old(self).received(), final(self).received(), Call::Finalize),
            old(self).infallible() ==> r is Ok && final(self).infallible(),
    ;
}

/// Whether a record of calls, where one is kept, went from `before` to
/// `after` by the one call `call`.
pub open spec fn receives(before: Option<Seq<Call>>, after: Option<Seq<Call>>, call: Call) -> bool {
    before is Some ==> after == Some(before->0.push(call))
}

/// Whether a record of calls, where one is kept, went from `before` to
/// `after` by the calls of `part`, in order.
pub open spec fn received_all(before: Option<Seq<Call>>, after: Option<Seq<Call>>, part: Seq<Call>) -> bool {
    before is Some ==> after == Some(before->0 + part)
}

/// A contract to generate bindings for: its name, its fields in
/// declared order, and its deploy bytecode if it has any.
pub struct ContractDescriptor<'a> {
    pub name: &'a str,
    pub fields: &'a Vec<AbiField>,
    pub bytecode: Option<&'a str>,
}

impl<'a> ContractDescriptor<'a> {
    /// The descriptor of a bare interface: no bytecode, so no deploy binding.
    pub fn from_abi(name: &'a str, fields: &'a Vec<AbiField>) -> (r: Self)
        ensures
            r.name@ == name@,
            r.fields == fields,
            r.bytecode is None,
    {
        ContractDescriptor { name, fields, bytecode: None }
    }

    /// The descriptor of a build artifact, under the name `name`.
    pub fn from_hardhat(name: &'a str, artifact: &'a HardhatArtifact) -> (r: Self)
        ensures
            r.name@ == name@,
            r.fields == &artifact.abi,
            r.bytecode is Some && r.bytecode->0@ == artifact.bytecode@,
    {
        ContractDescriptor { name, fields: &artifact.abi, bytecode: Some(artifact.bytecode.as_str()) }
    }
}

/// The mathematical content of a [`ContractDescriptor`].
pub struct ContractView {
    pub name: Seq<char>,
    pub fields: Seq<AbiField>,
    pub bytecode: Option<Seq<char>>,
}

impl<'a> View for ContractDescriptor<'a> {
    type V = ContractView;

    open spec fn view(&self) -> ContractView {
        ContractView {
            name: self.name@,
            fields: self.fields@,
            bytecode: match self.bytecode {
                Some(code) => Some(code@),
                None => None,
            },
        }
    }
}

/// A call made to a generator.
pub enum Call {
    Begin { name: Seq<char> },
    Tuple { key: Seq<char>, fields: Seq<ParameterView> },
    Function(Function),
    Event(Event),
    Error(Error),
    Deploy { bytecode: Seq<char>, inputs: Seq<ParameterView> },
    Finalize,
}

/// The registry after the pre-pass over the first `n` fields: each input
/// list, and each output list of a function, gives its tuple shapes.
pub open spec fn with_fields(registry: Seq<Shape>, fields: Seq<AbiField>, n: int) -> Seq<Shape>
    decreases n,
{
    if n <= 0 {
        registry
    } else {
        let before = with_fields(registry, fields, n - 1);
        match fields[n - 1] {
            AbiField::Constructor(c) => with_children(
                before,
                parameters_view(c.inputs@),
                c.inputs@.len() as int,
            ),
            AbiField::Function(f) => with_children(
                with_children(before, parameters_view(f.inputs@), f.inputs@.len() as int),
                parameters_view(f.outputs@),
                f.outputs@.len() as int,
            ),
            AbiField::Event(e) => with_children(
                before,
                parameters_view(e.inputs@),
                e.inputs@.len() as int,
            ),
            AbiField::Error(e) => with_children(
                before,
                parameters_view(e.inputs@),
                e.inputs@.len() as int,
            ),
            _ => before,
        }
    }
}

/// The calls that emit the first `n` registered tuple shapes.
pub open spec fn tuple_calls(registry: Seq<Shape>, n: int) -> Seq<Call> {
    Seq::new(n as nat, |i: int| Call::Tuple { key: registry[i].key, fields: registry[i].fields })
}

/// The calls that emit the first `n` fields: one for each function,
/// event and error, in declared order, and none for the rest.
pub open spec fn field_calls(fields: Seq<AbiField>, n: int) -> Seq<Call>
    decreases n,
{
    if n <= 0 {
        Seq::empty()
    } else {
        let before = field_calls(fields, n - 1);
        match fields[n - 1] {
            AbiField::Function(f) => before.push(Call::Function(f)),
            AbiField::Event(e) => before.push(Call::Event(e)),
            AbiField::Error(e) => before.push(Call::Error(e)),
            _ => before,
        }
    }
}

/// The index of the first constructor among the first `n` fields, or `n`.
pub open spec fn constructor_index(fields: Seq<AbiField>, n: int) -> int
    decreases n,
{
    if n <= 0 {
        0
    } else if constructor_index(fields, n - 1) < n - 1 {
        constructor_index(fields, n - 1)
    } else if fields[n - 1] is Constructor {
        n - 1
    } else {
        n
    }
}

/// The inputs of the first constructor among `fields`; none when there
/// is no constructor.
pub open spec fn constructor_inputs(fields: Seq<AbiField>) -> Seq<ParameterView> {
    let i = constructor_index(fields, fields.len() as int);
    if i < fields.len() {
        parameters_view(fields[i]->Constructor_0.inputs@)
    } else {
        Seq::empty()
    }
}

/// The call that emits the deploy binding, for a contract with bytecode.
pub open spec fn deploy_calls(fields: Seq<AbiField>, bytecode: Option<Seq<char>>) -> Seq<Call> {
    match bytecode {
        Some(code) => seq![Call::Deploy { bytecode: code, inputs: constructor_inputs(fields) }],
        None => Seq::empty(),
    }
}

/// The lifecycle of one contract, as calls to the generator: `begin`,
/// one tuple call for each shape of `registry`, the field calls, the
/// deploy call if there is bytecode, and `finalize`.
pub open spec fn lifecycle(contract: ContractView, registry: Seq<Shape>) -> Seq<Call> {
    seq![Call::Begin { name: contract.name }] + tuple_calls(registry, registry.len() as int)
        + field_calls(contract.fields, contract.fields.len() as int) + deploy_calls(
        contract.fields,
        contract.bytecode,
    ) + seq![Call::Finalize]
}

/// The calls for fewer fields open the calls for more fields.
pub proof fn lemma_field_calls_grow(fields: Seq<AbiField>, m: int, n: int)
    requires
        0 <= m <= n,
    ensures
        field_calls(fields, m).is_prefix_of(field_calls(fields, n)),
    decreases n - m,
{
    if m < n {
        lemma_field_calls_grow(fields, m, n - 1);
        let a = field_calls(fields, m);
        let b = field_calls(fields, n - 1);
        let c = field_calls(fields, n);
        assert(b.is_prefix_of(c));
        assert(a =~= c.subrange(0, a.len() as int)) by {
            assert(a =~= b.subrange(0, a.len() as int));
        }
    }
}

/// The lifecycle of a contract up to its tuple number `i`.
pub open spec fn lifecycle_to_tuple(contract: ContractView, registry: Seq<Shape>, i: int) -> Seq<
    Call,
> {
    seq![Call::Begin { name: contract.name }] + tuple_calls(registry, i)
}

/// The lifecycle of a contract up to its field number `j`.
pub open spec fn lifecycle_to_field(contract: ContractView, registry: Seq<Shape>, j: int) -> Seq<
    Call,
> {
    lifecycle_to_tuple(contract, registry, registry.len() as int) + field_calls(contract.fields, j)
}

/// The lifecycle of a contract up to and with its deploy call.
pub open spec fn lifecycle_to_deploy(contract: ContractView, registry: Seq<Shape>) -> Seq<
    Call,
> {
    lifecycle_to_field(contract, registry, contract.fields.len() as int) + deploy_calls(
        contract.fields,
        contract.bytecode,
    )
}

/// Each stage of the lifecycle opens the whole of it, and the last
/// stage with `finalize` is the whole.
pub proof fn lemma_lifecycle_stages(
    contract: ContractView,
    registry: Seq<Shape>,
    i: int,
    j: int,
)
    requires
        0 <= i <= registry.len(),
        0 <= j <= contract.fields.len(),
    ensures
        lifecycle_to_tuple(contract, registry, i).is_prefix_of(lifecycle(contract, registry)),
        lifecycle_to_field(contract, registry, j).is_prefix_of(lifecycle(contract, registry)),
        lifecycle_to_field(contract, registry, contract.fields.len() as int).is_prefix_of(
            lifecycle(contract, registry),
        ),
        lifecycle_to_deploy(contract, registry).is_prefix_of(lifecycle(contract, registry)),
        lifecycle_to_deploy(contract, registry).push(Call::Finalize) == lifecycle(contract, registry),
{
    let whole = lifecycle(contract, registry);
    let n = contract.fields.len() as int;
    let head = seq![Call::Begin { name: contract.name }];
    let tuples = tuple_calls(registry, registry.len() as int);
    let fields = field_calls(contract.fields, n);
    let deploy = deploy_calls(contract.fields, contract.bytecode);
    assert(whole =~= head + tuples + fields + deploy + seq![Call::Finalize]);
    assert(lifecycle_to_deploy(contract, registry).push(Call::Finalize) =~= whole);
    let a = lifecycle_to_tuple(contract, registry, i);
    assert(a =~= whole.subrange(0, a.len() as int));
    lemma_field_calls_grow(contract.fields, j, n);
    let b = lifecycle_to_field(contract, registry, j);
    assert(b =~= whole.subrange(0, b.len() as int)) by {
        assert(field_calls(contract.fields, j) =~= fields.subrange(
            0,
            field_calls(contract.fields, j).len() as int,
        ));
    }
    let c = lifecycle_to_field(contract, registry, n);
    assert(c =~= whole.subrange(0, c.len() as int));
    let d = lifecycle_to_deploy(contract, registry);
    assert(d =~= whole.subrange(0, d.len() as int));
}

/// The number of deploy calls among `calls`.
pub open spec fn deploy_count(calls: Seq<Call>) -> nat
    decreases calls.len(),
{
    if calls.len() == 0 {
        0
    } else {
        deploy_count(calls.drop_last()) + if calls.last() is Deploy {
            1nat
        } else {
            0nat
        }
    }
}

/// Counting deploy calls goes through concatenation.
proof fn lemma_deploy_count_add(a: Seq<Call>, b: Seq<Call>)
    ensures
        deploy_count(a + b) == deploy_count(a) + deploy_count(b),
    decreases b.len(),
{
    if b.len() == 0 {
        assert(a + b =~= a);
    } else {
        lemma_deploy_count_add(a, b.drop_last());
        assert((a + b).drop_last() =~= a + b.drop_last());
        assert((a + b).last() == b.last());
    }
}

/// The calls for tuples and for fields hold no deploy call.
proof fn lemma_no_deploy_among(registry: Seq<Shape>, i: int, fields: Seq<AbiField>, j: int)
    requires
        0 <= i <= registry.len(),
        0 <= j <= fields.len(),
    ensures
        deploy_count(tuple_calls(registry, i)) == 0,
        deploy_count(field_calls(fields, j)) == 0,
    decreases i + j,
{
    if i > 0 {
        lemma_no_deploy_among(registry, i - 1, fields, j);
        assert(tuple_calls(registry, i).drop_last() =~= tuple_calls(registry, i - 1));
    } else if j > 0 {
        lemma_no_deploy_among(registry, i, fields, j - 1);
        let before = field_calls(fields, j - 1);
        let now = field_calls(fields, j);
        if now.len() > before.len() {
            assert(now.drop_last() =~= before);
        }
    }
}

/// The lifecycle of a contract opens with `begin`, closes with
/// `finalize`, and holds the deploy call exactly once if the contract
/// has bytecode and not at all if it has none.
pub proof fn lemma_lifecycle_frame(contract: ContractView, registry: Seq<Shape>)
    ensures
        lifecycle(contract, registry).len() >= 2,
        lifecycle(contract, registry).first() == (Call::Begin { name: contract.name }),
        lifecycle(contract, registry).last() == Call::Finalize,
        deploy_count(lifecycle(contract, registry)) == if contract.bytecode is Some {
            1nat
        } else {
            0nat
        },
{
    let head = seq![Call::Begin { name: contract.name }];
    let tuples = tuple_calls(registry, registry.len() as int);
    let fields = field_calls(contract.fields, contract.fields.len() as int);
    let deploy = deploy_calls(contract.fields, contract.bytecode);
    let tail = seq![Call::Finalize];
    lemma_no_deploy_among(registry, registry.len() as int, contract.fields, contract.fields.len() as int);
    lemma_deploy_count_add(head, tuples);
    lemma_deploy_count_add(head + tuples, fields);
    lemma_deploy_count_add(head + tuples + fields, deploy);
    lemma_deploy_count_add(head + tuples + fields + deploy, tail);
    assert(deploy_count(Seq::<Call>::empty()) == 0);
    assert(head.drop_last() =~= Seq::<Call>::empty());
    assert(tail.drop_last() =~= Seq::<Call>::empty());
    assert(head.last() is Begin);
    assert(tail.last() is Finalize);
    assert(deploy_count(head) == 0);
    assert(deploy_count(tail) == 0);
    if contract.bytecode is Some {
        assert(deploy.drop_last() =~= Seq::<Call>::empty());
        assert(deploy.last() is Deploy);
        assert(deploy_count(deploy) == 1);
    } else {
        assert(deploy_count(deploy) == 0);
    }
}

/// The build of a contract with bytecode makes exactly one deploy call,
/// the last before `finalize`, and hands it that bytecode and the
/// inputs of the contract's first constructor.
pub proof fn lemma_one_deploy(contract: ContractView, registry: Seq<Shape>)
    requires
        contract.bytecode is Some,
    ensures
        ({
            let run = lifecycle(contract, registry);
            &&& deploy_count(run) == 1
            &&& run.len() >= 3
            &&& run[run.len() - 2] == (Call::Deploy {
                bytecode: contract.bytecode->0,
                inputs: constructor_inputs(contract.fields),
            })
        }),
{
    lemma_lifecycle_frame(contract, registry);
    let run = lifecycle(contract, registry);
    let fore = seq![Call::Begin { name: contract.name }] + tuple_calls(
        registry,
        registry.len() as int,
    ) + field_calls(contract.fields, contract.fields.len() as int);
    let deploy = deploy_calls(contract.fields, contract.bytecode);
    assert(run =~= fore + deploy + seq![Call::Finalize]);
    assert(deploy.len() == 1);
    assert(run[run.len() - 2] == deploy[0]);
}

/// The inputs of a contract's only field, a constructor, are the
/// inputs that the deploy call is handed.
pub proof fn lemma_sole_constructor(fields: Seq<AbiField>)
    requires
        fields.len() == 1,
        fields[0] is Constructor,
    ensures
        constructor_inputs(fields) == parameters_view(fields[0]->Constructor_0.inputs@),
        field_calls(fields, 1) == Seq::<Call>::empty(),
{
    assert(constructor_index(fields, 0) == 0);
    assert(constructor_index(fields, 1) == 0);
    assert(field_calls(fields, 0) =~= Seq::<Call>::empty());
}

} // verus!
