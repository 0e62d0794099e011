//! A generator that emits no code and writes down the calls it
//! receives: the lifecycle of a contract made visible.
use crate::error::BindError;
use crate::executor::Executor;
use crate::generate::{
    deploy_calls, field_calls, lifecycle, received_all, receives, tuple_calls, with_fields, Call,
    Contract, ContractDescriptor, ContractView, Generator,
};
use crate::json::{
    clone_parameters, parameters_view, Error, Event, Function, Parameter, ParameterView,
};
use crate::tuples::Shape;
use vstd::prelude::*;
use vstd::string::*;

verus! {

/// A call as a recorder writes it down.
#[derive(Debug)]
pub struct Record {
    /// What was called: `begin`, `tuple`, `function`, `event`, `error`,
    /// `deploy` or `finalize`.
    pub call: String,
    /// What the call is about: the name of the contract, the key of the
    /// tuple, the name of the function, event or error, the bytecode.
    pub subject: String,
    /// The parameters that were handed over: the fields of the tuple,
    /// the inputs of the function, event, error or constructor.
    pub parameters: Vec<Parameter>,
}

/// The mathematical content of a [`Record`].
pub struct RecordView {
    pub call: Seq<char>,
    pub subject: Seq<char>,
    pub parameters: Seq<ParameterView>,
}

impl View for Record {
    type V = RecordView;

    open spec fn view(&self) -> RecordView {
        RecordView {
            call: self.call@,
            subject: self.subject@,
            parameters: parameters_view(self.parameters@),
        }
    }
}

/// What a recorder writes down of a call.
pub open spec fn record_of(call: Call) -> RecordView {
    match call {
        Call::Begin { name } => RecordView {
            call: "begin"@,
            subject: name,
            parameters: Seq::empty(),
        },
        Call::Tuple { key, fields } => RecordView { call: "tuple"@, subject: key, parameters: fields },
        Call::Function(f) => RecordView {
            call: "function"@,
            subject: f.name@,
            parameters: parameters_view(f.inputs@),
        },
        Call::Event(e) => RecordView {
            call: "event"@,
            subject: e.name@,
            parameters: parameters_view(e.inputs@),
        },
        Call::Error(e) => RecordView {
            call: "error"@,
            subject: e.name@,
            parameters: parameters_view(e.inputs@),
        },
        Call::Deploy { bytecode, inputs } => RecordView {
            call: "deploy"@,
            subject: bytecode,
            parameters: inputs,
        },
        Call::Finalize => RecordView {
            call: "finalize"@,
            subject: Seq::empty(),
            parameters: Seq::empty(),
        },
    }
}

/// Whether `records` is what a recorder writes down of `calls`, call
/// for call.
pub open spec fn records_of(records: Seq<Record>, calls: Seq<Call>) -> bool {
    &&& records.len() == calls.len()
    &&& forall|i: int| 0 <= i < records.len() ==> (#[trigger] records[i])@ == record_of(calls[i])
}

/// A generator that writes down every call it receives and never fails.
pub struct Recorder {
    records: Vec<Record>,
    calls: Ghost<Seq<Call>>,
}

impl Recorder {
    /// What the recorder has written down, in the order of the calls.
    pub closed spec fn written(&self) -> Seq<Record> {
        self.records@
    }

    /// The calls that the recorder has received.
    pub closed spec fn heard(&self) -> Seq<Call> {
        self.calls@
    }

    /// A recorder that has received nothing.
    pub fn new() -> (r: Self)
        ensures
            r.heard() == Seq::<Call>::empty(),
            r.written() == Seq::<Record>::empty(),
            r.received() == Some(Seq::<Call>::empty()),
            r.infallible(),
    {
        Recorder { records: Vec::new(), calls: Ghost(Seq::empty()) }
    }

    /// What the recorder has written down, in the order of the calls.
    pub fn records(&self) -> (r: &Vec<Record>)
        ensures
            r@ == self.written(),
    {
        &self.records
    }

    /// Hands out what the recorder has written down.
    pub fn into_records(self) -> (r: Vec<Record>)
        ensures
            r@ == self.written(),
    {
        self.records
    }

    /// Writes down one call.
    fn note(&mut self, call: &str, subject: &str, parameters: &Vec<Parameter>, Ghost(heard): Ghost<Call>)
        requires
            record_of(heard) == (RecordView {
                call: call@,
                subject: subject@,
                parameters: parameters_view(parameters@),
            }),
        ensures
            receives(old(self).received(), final(self).received(), heard),
            final(self).heard() == old(self).heard().push(heard),
            final(self).written().len() == old(self).written().len() + 1,
            final(self).written().last()@ == record_of(heard),
            final(self).written().drop_last() == old(self).written(),
    {
        let ghost before = self.records@;
        self.records.push(
            Record {
                call: String::from_str(call),
                subject: String::from_str(subject),
                parameters: clone_parameters(parameters),
            },
        );
        self.calls = Ghost(self.calls@.push(heard));
        assert(self.records@.drop_last() =~= before);
        proof {
            if records_of(before, old(self).heard()) {
                assert forall|i: int| 0 <= i < self.records@.len() implies (
                #[trigger] self.records@[i])@ == record_of(self.calls@[i]) by {
                    if i < before.len() {
                        assert(self.records@[i] == before[i]);
                    }
                }
            }
        }
    }
}

impl Generator for Recorder {
    /// The calls that were received, as long as what is written down
    /// agrees with them.
    closed spec fn received(&self) -> Option<Seq<Call>> {
        if records_of(self.records@, self.calls@) {
            Some(self.calls@)
        } else {
            None
        }
    }

    /// A recorder never fails.
    open spec fn infallible(&self) -> bool {
        true
    }

    fn begin(&mut self, ctx: &Executor, contract_name: &str) -> (r: Result<(), BindError>) {
        let none: Vec<Parameter> = Vec::new();
        assert(parameters_view(none@) =~= Seq::<ParameterView>::empty());
        self.note("begin", contract_name, &none, Ghost(Call::Begin { name: contract_name@ }));
        Ok(())
    }

    fn generate_tuple(&mut self, ctx: &Executor, key: &str, tuple: &Vec<Parameter>) -> (r: Result<
        String,
        BindError,
    >) {
        self.note(
            "tuple",
            key,
            tuple,
            Ghost(Call::Tuple { key: key@, fields: parameters_view(tuple@) }),
        );
        Ok(String::from_str(key))
    }

    fn generate_deploy(&mut self, ctx: &Executor, bytecode: &str, inputs: &Vec<Parameter>) -> (r:
        Result<(), BindError>) {
        self.note(
            "deploy",
            bytecode,
            inputs,
            Ghost(Call::Deploy { bytecode: bytecode@, inputs: parameters_view(inputs@) }),
        );
        Ok(())
    }

    fn generate_function(&mut self, ctx: &Executor, function: &Function) -> (r: Result<
        (),
        BindError,
    >) {
        self.note(
            "function",
            function.name.as_str(),
            &function.inputs,
            Ghost(Call::Function(*function)),
        );
        Ok(())
    }

    fn generate_event(&mut self, ctx: &Executor, event: &Event) -> (r: Result<(), BindError>) {
        self.note("event", event.name.as_str(), &event.inputs, Ghost(Call::Event(*event)));
        Ok(())
    }

    fn generate_error(&mut self, ctx: &Executor, error: &Error) -> (r: Result<(), BindError>) {
        self.note("error", error.name.as_str(), &error.inputs, Ghost(Call::Error(*error)));
        Ok(())
    }

    fn finalize(&mut self, ctx: &Executor) -> (r: Result<Contract, BindError>) {
        let none: Vec<Parameter> = Vec::new();
        assert(parameters_view(none@) =~= Seq::<ParameterView>::empty());
        proof {
            reveal_strlit("");
            assert(""@ =~= Seq::<char>::empty());
        }
        self.note("finalize", "", &none, Ghost(Call::Finalize));
        Ok(Contract { files: Vec::new() })
    }
}

/// The calls that the build of `contract` makes to a generator that
/// never fails, as a recorder writes them down: the whole lifecycle of
/// the contract, call for call.
pub fn record(contract: &ContractDescriptor) -> (r: Vec<Record>)
    ensures
        records_of(
            r@,
            lifecycle(
                contract@,
                with_fields(Seq::empty(), contract.fields@, contract.fields@.len() as int),
            ),
        ),
{
    let mut recorder = Recorder::new();
    let mut executor = Executor::new();
    let outcome = executor.generate_one(&mut recorder, contract);
    proof {
        let run = lifecycle(contract@, executor.registry());
        assert(outcome is Ok);
        assert(executor.journal() =~= run);
        assert(executor.journal().skip(0) =~= run);
        assert(Seq::<Call>::empty() + run =~= run);
    }
    recorder.into_records()
}

} // verus!
