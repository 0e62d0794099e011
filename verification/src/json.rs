//! The data model of a contract interface description.
//!
//! A contract is an ordered list of fields (functions, events, errors, a
//! constructor), each with parameters whose types follow the descriptor
//! grammar of [`Type`].
use vstd::prelude::*;

verus! {

/// The types that the grammar names by a bare word.
#[derive(Debug, Clone, Copy, PartialEq, Eq, Structural)]
pub enum SimpleType {
    Address,
    Uint,
    Int,
    Bool,
    Fixed,
    Ufixed,
    /// An address followed by a function selector.
    Function,
    Bytes,
    String,
    Tuple,
}

impl SimpleType {
    /// Whether this is the tuple type.
    pub fn is_tuple(&self) -> (r: bool)
        ensures
            r == (*self == SimpleType::Tuple),
    {
        match self {
            SimpleType::Tuple => true,
            _ => false,
        }
    }
}

/// Fixed-point decimal number of `m` bits with `n` fractional digits.
#[derive(Debug, Clone, Copy, PartialEq, Eq, Structural)]
pub struct FixedMN {
    pub m: usize,
    pub n: usize,
    pub signed: bool,
}

/// Integer of `m` bits.
#[derive(Debug, Clone, Copy, PartialEq, Eq, Structural)]
pub struct IntegerM {
    pub signed: bool,
    pub m: usize,
}

/// Binary value of `m` bytes.
#[derive(Debug, Clone, Copy, PartialEq, Eq, Structural)]
pub struct BytesM {
    pub m: usize,
}

/// The closed set of interface types.
#[derive(Debug, PartialEq, Eq)]
pub enum Type {
    Simple(SimpleType),
    BytesM(BytesM),
    IntegerM(IntegerM),
    FixedMN(FixedMN),
    ArrayM(Box<ArrayM>),
    Array(Box<Array>),
}

/// A fixed-length array of `m` elements of one type.
#[derive(Debug, PartialEq, Eq)]
pub struct ArrayM {
    pub element: Type,
    pub m: usize,
}

/// A variable-length array of elements of one type.
#[derive(Debug, PartialEq, Eq)]
pub struct Array {
    pub element: Type,
}

/// Whether `m` is a legal bit width: a multiple of 8 from 8 to 256.
pub open spec fn valid_bits(m: int) -> bool {
    8 <= m <= 256 && m % 8 == 0
}

impl IntegerM {
    /// The invariant of an integer type.
    pub open spec fn wf(&self) -> bool {
        valid_bits(self.m as int)
    }
}

impl FixedMN {
    /// The invariant of a fixed-point type.
    pub open spec fn wf(&self) -> bool {
        valid_bits(self.m as int) && self.n <= 80
    }
}

impl BytesM {
    /// The invariant of a fixed-bytes type.
    pub open spec fn wf(&self) -> bool {
        1 <= self.m <= 32
    }
}

impl Type {
    /// The invariant of a type: every numeric field is in its range, at
    /// any depth of array nesting. An array length is a numeral of the
    /// grammar, so it is below one thousand.
    pub open spec fn wf(&self) -> bool
        decreases *self,
    {
        match *self {
            Type::Simple(_) => true,
            Type::BytesM(b) => b.wf(),
            Type::IntegerM(i) => i.wf(),
            Type::FixedMN(f) => f.wf(),
            Type::ArrayM(a) => a.m < 1000 && a.element.wf(),
            Type::Array(a) => a.element.wf(),
        }
    }

    /// The type at the bottom of the array nesting.
    pub open spec fn leaf(&self) -> Type
        decreases *self,
    {
        match *self {
            Type::ArrayM(a) => a.element.leaf(),
            Type::Array(a) => a.element.leaf(),
            _ => *self,
        }
    }

    /// Whether the leaf of this type is the tuple type.
    pub open spec fn is_tuple_bearing(&self) -> bool {
        self.leaf() == Type::Simple(SimpleType::Tuple)
    }
}

impl Clone for Type {
    fn clone(&self) -> (r: Self)
        ensures
            r == *self,
        decreases *self,
    {
        match self {
            Type::Simple(s) => Type::Simple(*s),
            Type::BytesM(b) => Type::BytesM(*b),
            Type::IntegerM(i) => Type::IntegerM(*i),
            Type::FixedMN(f) => Type::FixedMN(*f),
            Type::ArrayM(a) => Type::ArrayM(Box::new(ArrayM { element: a.element.clone(), m: a.m })),
            Type::Array(a) => Type::Array(Box::new(Array { element: a.element.clone() })),
        }
    }
}

impl Type {
    /// Whether this type and `other` are the same type.
    pub fn same(&self, other: &Type) -> (r: bool)
        ensures
            r == (*self == *other),
        decreases *self,
    {
        match (self, other) {
            (Type::Simple(a), Type::Simple(b)) => *a == *b,
            (Type::BytesM(a), Type::BytesM(b)) => a.m == b.m,
            (Type::IntegerM(a), Type::IntegerM(b)) => a.signed == b.signed && a.m == b.m,
            (Type::FixedMN(a), Type::FixedMN(b)) => a.signed == b.signed && a.m == b.m && a.n
                == b.n,
            (Type::ArrayM(a), Type::ArrayM(b)) => a.m == b.m && a.element.same(&b.element),
            (Type::Array(a), Type::Array(b)) => a.element.same(&b.element),
            _ => false,
        }
    }
}

impl Clone for ArrayM {
    fn clone(&self) -> (r: Self)
        ensures
            r == *self,
    {
        ArrayM { element: self.element.clone(), m: self.m }
    }
}

impl Clone for Array {
    fn clone(&self) -> (r: Self)
        ensures
            r == *self,
    {
        Array { element: self.element.clone() }
    }
}

/// An input or output of a function, event or error.
#[derive(Debug)]
pub struct Parameter {
    /// The name of the parameter; may be empty.
    pub name: String,
    /// The type of the parameter.
    pub ty: Type,
    /// The fields of the tuple, for a parameter whose type is a tuple or
    /// an array of tuples.
    pub components: Option<Vec<Parameter>>,
    /// For an event input, whether it travels in the topic list of the
    /// log instead of its data payload.
    pub indexed: bool,
}

/// The mathematical content of a [`Parameter`].
pub struct ParameterView {
    pub name: Seq<char>,
    pub ty: Type,
    pub components: Option<Seq<ParameterView>>,
    pub indexed: bool,
}

/// The content of one parameter.
pub open spec fn parameter_view(p: Parameter) -> ParameterView
    decreases p,
{
    ParameterView {
        name: p.name@,
        ty: p.ty,
        components: match p.components {
            Some(fields) => Some(parameters_view(fields@)),
            None => None,
        },
        indexed: p.indexed,
    }
}

/// The content of a list of parameters.
pub open spec fn parameters_view(s: Seq<Parameter>) -> Seq<ParameterView>
    decreases s,
{
    Seq::new(s.len(), |i: int| if 0 <= i < s.len() { parameter_view(s[i]) } else { arbitrary() })
}

impl View for Parameter {
    type V = ParameterView;

    open spec fn view(&self) -> ParameterView {
        parameter_view(*self)
    }
}

impl ParameterView {
    /// The invariant of a parameter: it has components exactly when the
    /// leaf of its type is the tuple type, and so at every depth.
    pub open spec fn wf(self) -> bool
        decreases self,
    {
        &&& self.ty.wf()
        &&& self.components is Some <==> self.ty.is_tuple_bearing()
        &&& match self.components {
            Some(fields) => forall|i: int| 0 <= i < fields.len() ==> (#[trigger] fields[i]).wf(),
            None => true,
        }
    }
}

/// Copies a list of parameters.
pub fn clone_parameters(list: &Vec<Parameter>) -> (r: Vec<Parameter>)
    ensures
        parameters_view(r@) == parameters_view(list@),
    decreases list,
{
    let mut r: Vec<Parameter> = Vec::new();
    let mut i: usize = 0;
    while i < list.len()
        invariant
            i <= list.len(),
            r.len() == i,
            forall|j: int| 0 <= j < i ==> parameter_view(r@[j]) == parameter_view(list@[j]),
        decreases list.len() - i,
    {
        let p = list[i].clone();
        r.push(p);
        i += 1;
    }
    assert(parameters_view(r@) =~= parameters_view(list@));
    r
}

impl Clone for Parameter {
    fn clone(&self) -> (r: Self)
        ensures
            r@ == self@,
        decreases *self,
    {
        Parameter {
            name: self.name.clone(),
            ty: self.ty.clone(),
            components: match &self.components {
                Some(fields) => Some(clone_parameters(fields)),
                None => None,
            },
            indexed: self.indexed,
        }
    }
}

/// Whether a function reads or changes the state of the chain, and
/// whether it accepts payment.
#[derive(Debug, Clone, Copy, PartialEq, Eq, Structural)]
pub enum StateMutability {
    Pure,
    View,
    Nonpayable,
    Payable,
}

/// A callable function of the contract.
#[derive(Debug, Clone)]
pub struct Function {
    pub name: String,
    pub inputs: Vec<Parameter>,
    pub outputs: Vec<Parameter>,
    pub state_mutability: StateMutability,
}

/// The constructor of the contract.
#[derive(Debug, Clone)]
pub struct Constructor {
    pub inputs: Vec<Parameter>,
    pub state_mutability: StateMutability,
}

/// The function that receives plain payments.
#[derive(Debug, Clone)]
pub struct Receive {
    pub state_mutability: StateMutability,
}

/// The function that is called when no other matches.
#[derive(Debug, Clone)]
pub struct Fallback {
    pub state_mutability: StateMutability,
}

/// An event that the contract logs.
#[derive(Debug, Clone)]
pub struct Event {
    pub name: String,
    pub inputs: Vec<Parameter>,
    /// An anonymous event does not keep the first topic for its
    /// signature hash.
    pub anonymous: bool,
}

/// An error that the contract raises.
#[derive(Debug, Clone)]
pub struct Error {
    pub name: String,
    pub inputs: Vec<Parameter>,
}

/// One entry of a contract interface.
#[derive(Debug, Clone)]
pub enum AbiField {
    Function(Function),
    Constructor(Constructor),
    Receive(Receive),
    Fallback(Fallback),
    Event(Event),
    Error(Error),
}

/// A build artifact: the interface of a contract with its name and its
/// deploy bytecode.
#[derive(Debug, Clone)]
pub struct HardhatArtifact {
    pub contract_name: String,
    pub source_name: String,
    pub abi: Vec<AbiField>,
    pub bytecode: String,
    pub deployed_bytecode: String,
}

/// The parameter list of a function that declares none.
pub fn default_parameters() -> (r: Vec<Parameter>)
    ensures
        r@ == Seq::<Parameter>::empty(),
{
    Vec::new()
}

/// Where the value of an event input is found in a log entry.
#[derive(Debug, Clone, Copy, PartialEq, Eq, Structural)]
pub enum DecodeSource {
    /// The entry of the topic list at this index.
    Topic(usize),
    /// The value at this position of the data payload.
    Data(usize),
}

/// The number of inputs among the first `upto` whose `indexed` flag is `flag`.
pub open spec fn count_indexed(inputs: Seq<Parameter>, upto: int, flag: bool) -> nat
    decreases upto,
{
    if upto <= 0 {
        0
    } else {
        count_indexed(inputs, upto - 1, flag) + if inputs[upto - 1].indexed == flag {
            1nat
        } else {
            0nat
        }
    }
}

/// Counting goes up with the range: a count over the first `upto`
/// inputs is at most `upto`.
pub proof fn lemma_count_indexed_bound(inputs: Seq<Parameter>, upto: int, flag: bool)
    requires
        0 <= upto,
    ensures
        count_indexed(inputs, upto, flag) <= upto,
    decreases upto,
{
    if upto > 0 {
        lemma_count_indexed_bound(inputs, upto - 1, flag);
    }
}

impl Event {
    /// Where input `i` is decoded from. An indexed input is topic number
    /// `k`, or `k + 1` unless the event is anonymous, where `k` is its
    /// position among the indexed inputs; another input is value number
    /// `k` of the data payload, where `k` is its position among the
    /// inputs that are not indexed.
    pub open spec fn source_of(&self, i: int) -> DecodeSource {
        if self.inputs@[i].indexed {
            DecodeSource::Topic(
                (count_indexed(self.inputs@, i, true) + if self.anonymous {
                    0nat
                } else {
                    1nat
                }) as usize,
            )
        } else {
            DecodeSource::Data(count_indexed(self.inputs@, i, false) as usize)
        }
    }

    /// Where each input of the event is decoded from, in declaration order.
    pub fn decode_plan(&self) -> (plan: Vec<DecodeSource>)
        ensures
            plan.len() == self.inputs.len(),
            forall|i: int| 0 <= i < plan.len() ==> plan@[i] == self.source_of(i),
    {
        let mut plan: Vec<DecodeSource> = Vec::new();
        let offset: usize = if self.anonymous {
            0
        } else {
            1
        };
        let mut topics: usize = 0;
        let mut values: usize = 0;
        let mut i: usize = 0;
        while i < self.inputs.len()
            invariant
                i <= self.inputs.len(),
                plan.len() == i,
                offset == if self.anonymous {
                    0nat
                } else {
                    1nat
                },
                topics == count_indexed(self.inputs@, i as int, true),
                values == count_indexed(self.inputs@, i as int, false),
                forall|j: int| 0 <= j < i ==> plan@[j] == self.source_of(j),
            decreases self.inputs.len() - i,
        {
            proof {
                lemma_count_indexed_bound(self.inputs@, i as int, true);
                lemma_count_indexed_bound(self.inputs@, i as int, false);
            }
            if self.inputs[i].indexed {
                plan.push(DecodeSource::Topic(topics + offset));
                topics += 1;
            } else {
                plan.push(DecodeSource::Data(values));
                values += 1;
            }
            i += 1;
        }
        plan
    }
}

/// Whether every parameter of `list` is well formed.
pub open spec fn parameters_wf(list: Seq<Parameter>) -> bool {
    forall|i: int| 0 <= i < list.len() ==> (#[trigger] parameter_view(list[i])).wf()
}

impl Type {
    /// Whether every numeric field of the type is in its range.
    pub fn is_well_formed(&self) -> (r: bool)
        ensures
            r == self.wf(),
        decreases *self,
    {
        match self {
            Type::Simple(_) => true,
            Type::BytesM(b) => 1 <= b.m && b.m <= 32,
            Type::IntegerM(i) => 8 <= i.m && i.m <= 256 && i.m % 8 == 0,
            Type::FixedMN(f) => 8 <= f.m && f.m <= 256 && f.m % 8 == 0 && f.n <= 80,
            Type::ArrayM(a) => a.m < 1000 && a.element.is_well_formed(),
            Type::Array(a) => a.element.is_well_formed(),
        }
    }

    /// Whether the leaf of this type is the tuple type.
    pub fn has_tuple_leaf(&self) -> (r: bool)
        ensures
            r == self.is_tuple_bearing(),
        decreases *self,
    {
        match self {
            Type::Simple(k) => k.is_tuple(),
            Type::ArrayM(a) => a.element.has_tuple_leaf(),
            Type::Array(a) => a.element.has_tuple_leaf(),
            _ => false,
        }
    }
}

/// Whether every parameter of `list` is well formed.
pub fn check_parameters(list: &Vec<Parameter>) -> (r: bool)
    ensures
        r == parameters_wf(list@),
    decreases list,
{
    let mut i: usize = 0;
    while i < list.len()
        invariant
            i <= list.len(),
            forall|j: int| 0 <= j < i ==> (#[trigger] parameter_view(list@[j])).wf(),
        decreases list.len() - i,
    {
        if !list[i].is_well_formed() {
            return false;
        }
        i += 1;
    }
    true
}

impl Parameter {
    /// Whether the parameter keeps the invariant of the data model: its
    /// type is well formed, and it has components exactly when the leaf
    /// of its type is the tuple type, and so at every depth.
    pub fn is_well_formed(&self) -> (r: bool)
        ensures
            r == self@.wf(),
        decreases *self,
    {
        let ghost view = self@;
        assert(view.ty == self.ty);
        if !self.ty.is_well_formed() {
            return false;
        }
        match &self.components {
            Some(fields) => {
                let inner = check_parameters(fields);
                proof {
                    let views = view.components->0;
                    assert(views == parameters_view(fields@));
                    assert(views.len() == fields@.len());
                    if inner {
                        assert forall|i: int| 0 <= i < views.len() implies (#[trigger] views[i]).wf() by {
                            assert(parameter_view(fields@[i]).wf());
                        }
                    } else {
                        let j = choose|j: int|
                            0 <= j < fields@.len() && !(#[trigger] parameter_view(fields@[j])).wf();
                        assert(views[j] == parameter_view(fields@[j]));
                    }
                }
                let leaf = self.ty.has_tuple_leaf();
                assert(leaf == view.ty.is_tuple_bearing());
                assert(inner == (forall|i: int|
                    0 <= i < view.components->0.len() ==> (#[trigger] view.components->0[i]).wf()));
                assert(view.wf() == (view.ty.wf() && leaf && inner));
                leaf && inner
            },
            None => {
                let leaf = self.ty.has_tuple_leaf();
                !leaf
            },
        }
    }
}

impl AbiField {
    /// The invariant of a field: each of its parameters is well formed.
    pub open spec fn wf(&self) -> bool {
        match *self {
            AbiField::Function(f) => parameters_wf(f.inputs@) && parameters_wf(f.outputs@),
            AbiField::Constructor(c) => parameters_wf(c.inputs@),
            AbiField::Event(e) => parameters_wf(e.inputs@),
            AbiField::Error(e) => parameters_wf(e.inputs@),
            AbiField::Receive(_) => true,
            AbiField::Fallback(_) => true,
        }
    }

    /// Whether each parameter of the field is well formed.
    pub fn is_well_formed(&self) -> (r: bool)
        ensures
            r == self.wf(),
    {
        match self {
            AbiField::Function(f) => check_parameters(&f.inputs) && check_parameters(&f.outputs),
            AbiField::Constructor(c) => check_parameters(&c.inputs),
            AbiField::Event(e) => check_parameters(&e.inputs),
            AbiField::Error(e) => check_parameters(&e.inputs),
            AbiField::Receive(_) => true,
            AbiField::Fallback(_) => true,
        }
    }
}

/// Whether every field of `fields` is well formed.
pub open spec fn fields_wf(fields: Seq<AbiField>) -> bool {
    forall|i: int| 0 <= i < fields.len() ==> (#[trigger] fields[i]).wf()
}

/// Whether every field of `fields` is well formed.
pub fn check_fields(fields: &Vec<AbiField>) -> (r: bool)
    ensures
        r == fields_wf(fields@),
{
    let mut i: usize = 0;
    while i < fields.len()
        invariant
            i <= fields.len(),
            forall|j: int| 0 <= j < i ==> (#[trigger] fields@[j]).wf(),
        decreases fields.len() - i,
    {
        if !fields[i].is_well_formed() {
            return false;
        }
        i += 1;
    }
    true
}

} // verus!
