//! The executor: the registry of tuple shapes of a contract, the target
//! names of the tuples that were emitted, and the lifecycle through
//! which a generator is driven.
use crate::error::{BindError, BindErrorView, ProtocolError, TypeMappingError, TypeMappingErrorView};
use crate::json::{
    clone_parameters, parameter_view, parameters_view, AbiField, Error, Event, Function, Parameter,
    ParameterView, SimpleType, Type,
};
use crate::generate::{
    constructor_index, constructor_inputs, lemma_lifecycle_stages, lifecycle, lifecycle_to_deploy, lifecycle_to_field,
    lifecycle_to_tuple, received_all, receives, tuple_calls, with_fields, Call, Contract,
    ContractDescriptor, Generator,
};
use crate::mapping::{mapped, TypeMapping};
use crate::text::{join_strings, push_char, same_text, texts};
use crate::tuples::{
    child_keys, distinct_keys, has_key, lemma_with_shape, tuple_key, with_children, with_shape,
    with_tuple, Shape,
};
use vstd::hash_map::StringHashMap;
use vstd::prelude::*;
use vstd::string::*;

verus! {

/// The canonical key of the tuple with these fields.
pub fn tuple_key_of(tuple: &Vec<Parameter>) -> (key: String)
    ensures
        key@ == tuple_key(parameters_view(tuple@)),
    decreases tuple,
{
    let ghost fields = parameters_view(tuple@);
    let mut els: Vec<String> = Vec::new();
    let mut i: usize = 0;
    while i < tuple.len()
        invariant
            i <= tuple.len(),
            fields == parameters_view(tuple@),
            texts(els@) == child_keys(fields, i as int),
        decreases tuple.len() - i,
    {
        assert(fields[i as int] == parameter_view(tuple@[i as int]));
        if let Some(child_components) = &tuple[i].components {
            let el = tuple_key_of(child_components);
            let ghost before = els@;
            els.push(el);
            assert(texts(els@) =~= texts(before).push(el@));
        }
        i += 1;
    }
    let mut key = String::from_str("(");
    proof {
        reveal_strlit("(");
        assert("("@ =~= seq!['(']);
    }
    key.append(join_strings(&els, ',').as_str());
    push_char(&mut key, ')');
    assert(key@ =~= tuple_key(fields));
    key
}

/// A registered tuple shape: its key and the fields that first gave it.
pub struct TupleShape {
    key: String,
    fields: Vec<Parameter>,
}

impl View for TupleShape {
    type V = Shape;

    closed spec fn view(&self) -> Shape {
        Shape { key: self.key@, fields: parameters_view(self.fields@) }
    }
}

impl TupleShape {
    /// The key of the shape.
    pub fn key(&self) -> (r: &str)
        ensures
            r@ == self@.key,
    {
        self.key.as_str()
    }

    /// The fields that first gave the key.
    pub fn fields(&self) -> (r: &Vec<Parameter>)
        ensures
            parameters_view(r@) == self@.fields,
    {
        &self.fields
    }
}

/// The state of a binding build: the tuple shapes of the contract, the
/// target names of those that were emitted, and whether the scope of a
/// contract is open.
///
/// The executor keeps a journal of the calls it makes to generators. The
/// journal exists for the contracts alone: each call is written down at
/// the place where it is made, with what is handed to the generator,
/// and the contracts of the lifecycle functions say which calls were
/// made and in which order. Of a generator that keeps its own record of
/// the calls it receives, they say as well that its record grew by the
/// very calls that the journal grew by; and of one that never fails,
/// that the build succeeds.
pub struct Executor {
    tuples: Vec<TupleShape>,
    mapping_tuples: StringHashMap<String>,
    open: bool,
    deployed: bool,
    journal: Ghost<Seq<Call>>,
}

impl Executor {
    /// The registered tuple shapes, in the order of their registration.
    pub closed spec fn registry(&self) -> Seq<Shape> {
        Seq::new(self.tuples@.len(), |i: int| self.tuples@[i]@)
    }

    /// The target type paths of the emitted tuples, by key.
    pub closed spec fn paths(&self) -> Map<Seq<char>, String> {
        self.mapping_tuples@
    }

    /// Whether the scope of a contract is open: `begin` was called and
    /// neither `finalize` nor a failure has closed it.
    pub closed spec fn is_open(&self) -> bool {
        self.open
    }

    /// Whether the deploy binding was emitted in the open scope.
    pub closed spec fn has_deployed(&self) -> bool {
        self.deployed
    }

    /// The calls made to generators so far, in order.
    pub closed spec fn journal(&self) -> Seq<Call> {
        self.journal@
    }

    /// Whether `other` differs from this executor at most in its
    /// registry and its tuple paths.
    pub open spec fn same_scope(&self, other: &Executor) -> bool {
        &&& self.is_open() == other.is_open()
        &&& self.has_deployed() == other.has_deployed()
        &&& self.journal() == other.journal()
    }

    /// The invariant of the executor: no key is registered twice.
    pub open spec fn wf(&self) -> bool {
        distinct_keys(self.registry())
    }

    /// An executor with nothing registered.
    pub fn new() -> (r: Self)
        ensures
            r.wf(),
            r.registry() == Seq::<Shape>::empty(),
            r.paths() == Map::<Seq<char>, String>::empty(),
            !r.is_open(),
            !r.has_deployed(),
            r.journal() == Seq::<Call>::empty(),
    {
        let r = Executor {
            tuples: Vec::new(),
            mapping_tuples: StringHashMap::new(),
            open: false,
            deployed: false,
            journal: Ghost(Seq::empty()),
        };
        assert(r.registry() =~= Seq::<Shape>::empty());
        r
    }

    /// The registered tuple shapes, in the order of their registration.
    pub fn tuples(&self) -> (r: &Vec<TupleShape>)
        ensures
            r@.len() == self.registry().len(),
            forall|i: int| 0 <= i < r@.len() ==> (#[trigger] r@[i])@ == self.registry()[i],
    {
        &self.tuples
    }

    /// Whether a tuple shape is registered under `name`.
    pub fn contains_tuple(&self, name: &str) -> (r: bool)
        ensures
            r == has_key(self.registry(), name@),
    {
        let mut i: usize = 0;
        while i < self.tuples.len()
            invariant
                i <= self.tuples.len(),
                forall|j: int| 0 <= j < i ==> (#[trigger] self.registry()[j]).key != name@,
            decreases self.tuples.len() - i,
        {
            if same_text(self.tuples[i].key.as_str(), name) {
                assert(self.registry()[i as int].key == name@);
                return true;
            }
            i += 1;
        }
        false
    }

    /// Registers `tuple` under `name` unless the name is taken: the
    /// first writer wins.
    pub fn add_tuple(&mut self, name: &str, tuple: &Vec<Parameter>)
        requires
            old(self).wf(),
        ensures
            final(self).wf(),
            final(self).registry() == with_shape(
                old(self).registry(),
                name@,
                parameters_view(tuple@),
            ),
            final(self).paths() == old(self).paths(),
            final(self).same_scope(old(self)),
    {
        proof {
            lemma_with_shape(self.registry(), name@, parameters_view(tuple@));
        }
        if !self.contains_tuple(name) {
            let ghost before = self.registry();
            self.tuples.push(
                TupleShape { key: String::from_str(name), fields: clone_parameters(tuple) },
            );
            assert(self.registry() =~= before.push(
                Shape { key: name@, fields: parameters_view(tuple@) },
            ));
        }
    }

    /// Registers the tuple with these fields, after each tuple among its
    /// fields, and gives its canonical key.
    pub fn tuple_name(&mut self, tuple: &Vec<Parameter>) -> (key: String)
        requires
            old(self).wf(),
        ensures
            final(self).wf(),
            key@ == tuple_key(parameters_view(tuple@)),
            final(self).registry() == with_tuple(old(self).registry(), parameters_view(tuple@)),
            final(self).paths() == old(self).paths(),
            final(self).same_scope(old(self)),
        decreases tuple,
    {
        let ghost fields = parameters_view(tuple@);
        let ghost start = self.registry();
        let mut els: Vec<String> = Vec::new();
        let mut i: usize = 0;
        while i < tuple.len()
            invariant
                i <= tuple.len(),
                fields == parameters_view(tuple@),
                self.wf(),
                self.registry() == with_children(start, fields, i as int),
                self.paths() == old(self).paths(),
                self.same_scope(old(self)),
                texts(els@) == child_keys(fields, i as int),
            decreases tuple.len() - i,
        {
            assert(fields[i as int] == parameter_view(tuple@[i as int]));
            if let Some(child_components) = &tuple[i].components {
                let el = self.tuple_name(child_components);
                let ghost before = els@;
                els.push(el);
                assert(texts(els@) =~= texts(before).push(el@));
            }
            i += 1;
        }
        let mut key = String::from_str("(");
        proof {
            reveal_strlit("(");
            assert("("@ =~= seq!['(']);
        }
        key.append(join_strings(&els, ',').as_str());
        push_char(&mut key, ')');
        assert(key@ =~= tuple_key(fields));
        self.add_tuple(key.as_str(), tuple);
        key
    }

    /// Registers the tuple with these fields and gives its canonical key.
    pub fn register_tuple(&mut self, tuple: &Vec<Parameter>) -> (key: String)
        requires
            old(self).wf(),
        ensures
            final(self).wf(),
            key@ == tuple_key(parameters_view(tuple@)),
            final(self).registry() == with_tuple(old(self).registry(), parameters_view(tuple@)),
            final(self).paths() == old(self).paths(),
            final(self).same_scope(old(self)),
    {
        self.tuple_name(tuple)
    }

    /// Records the target type path of the tuple `name`, unless one is
    /// recorded already; says whether it was recorded.
    pub fn register_tuple_mapping(&mut self, name: &str, to_type_path: String) -> (r: bool)
        ensures
            r == !old(self).paths().contains_key(name@),
            r ==> final(self).paths() == old(self).paths().insert(name@, to_type_path),
            !r ==> final(self).paths() == old(self).paths(),
            final(self).registry() == old(self).registry(),
            final(self).same_scope(old(self)),
    {
        if !self.mapping_tuples.contains_key(name) {
            self.mapping_tuples.insert(String::from_str(name), to_type_path);
            true
        } else {
            false
        }
    }
}

/// The target type of the interface type `ty`: the recorded path of the
/// tuple with the fields `tuple` for a tuple, what `type_mapping` gives
/// for another leaf, and for an array what it gives for the array with
/// the target type of the element, which is resolved first.
pub open spec fn mapping_of<TM: TypeMapping>(
    type_mapping: &TM,
    paths: Map<Seq<char>, String>,
    ty: Type,
    tuple: Seq<ParameterView>,
) -> Result<Seq<char>, TypeMappingErrorView>
    decreases ty,
{
    match ty {
        Type::Simple(k) => if k == SimpleType::Tuple {
            if paths.contains_key(tuple_key(tuple)) {
                Ok(paths[tuple_key(tuple)]@)
            } else {
                Err(TypeMappingErrorView::NotFound(tuple_key(tuple)))
            }
        } else {
            type_mapping.simple_spec(k)
        },
        Type::Array(a) => match mapping_of(type_mapping, paths, a.element, tuple) {
            Ok(element) => type_mapping.array_spec(element),
            Err(e) => Err(e),
        },
        Type::ArrayM(a) => match mapping_of(type_mapping, paths, a.element, tuple) {
            Ok(element) => type_mapping.array_m_spec(element, a.m),
            Err(e) => Err(e),
        },
        Type::BytesM(b) => type_mapping.bytes_m_spec(b.m),
        Type::FixedMN(f) => type_mapping.fixed_m_n_spec(f),
        Type::IntegerM(i) => type_mapping.integer_m_spec(i),
    }
}

/// The fields of the tuple that a parameter carries; none for a
/// parameter without components.
pub open spec fn components_of(parameter: ParameterView) -> Seq<ParameterView> {
    match parameter.components {
        Some(fields) => fields,
        None => Seq::empty(),
    }
}

impl Executor {
    /// The target type of the interface type `ty`, where `tuple` holds
    /// the fields of the tuple at its leaf, if that is a tuple. A tuple
    /// resolves to the path recorded when it was emitted, and fails
    /// before that.
    pub fn mapping_type<TM: TypeMapping>(
        &self,
        type_mapping: &TM,
        ty: &Type,
        tuple: &Vec<Parameter>,
    ) -> (r: Result<String, TypeMappingError>)
        ensures
            mapped(r, mapping_of(type_mapping, self.paths(), *ty, parameters_view(tuple@))),
        decreases *ty,
    {
        match ty {
            Type::Simple(simple) => {
                if simple.is_tuple() {
                    let key = tuple_key_of(tuple);
                    match self.mapping_tuples.get(key.as_str()) {
                        Some(path) => Ok(path.clone()),
                        None => Err(TypeMappingError::NotFound(key)),
                    }
                } else {
                    type_mapping.simple(simple)
                }
            },
            Type::Array(array) => match self.mapping_type(type_mapping, &array.element, tuple) {
                Ok(element) => type_mapping.array(element.as_str()),
                Err(e) => Err(e),
            },
            Type::ArrayM(array_m) => match self.mapping_type(
                type_mapping,
                &array_m.element,
                tuple,
            ) {
                Ok(element) => type_mapping.array_m(element.as_str(), array_m.m),
                Err(e) => Err(e),
            },
            Type::BytesM(bytes_m) => type_mapping.bytes_m(bytes_m.m),
            Type::FixedMN(fixed_m_n) => type_mapping.fixed_m_n(*fixed_m_n),
            Type::IntegerM(int_m) => type_mapping.integer_m(*int_m),
        }
    }

    /// The target type of a parameter.
    pub fn mapping_parameter<TM: TypeMapping>(&self, type_mapping: &TM, parameter: &Parameter) -> (r:
        Result<String, TypeMappingError>)
        ensures
            mapped(
                r,
                mapping_of(type_mapping, self.paths(), parameter.ty, components_of(parameter@)),
            ),
    {
        match &parameter.components {
            Some(fields) => self.mapping_type(type_mapping, &parameter.ty, fields),
            None => {
                let none: Vec<Parameter> = Vec::new();
                assert(parameters_view(none@) =~= Seq::<ParameterView>::empty());
                self.mapping_type(type_mapping, &parameter.ty, &none)
            },
        }
    }
}

/// Whether `r` is the refusal of a call made out of turn.
pub open spec fn refused<T>(r: Result<T, BindError>, why: ProtocolError) -> bool {
    r is Err && r->Err_0@ == BindErrorView::Protocol(why)
}

impl Executor {
    /// Whether `other` has the registry and the tuple paths of this executor.
    pub open spec fn same_tuples(&self, other: &Executor) -> bool {
        self.registry() == other.registry() && self.paths() == other.paths()
    }

    /// Whether the scope of a contract is open.
    pub fn in_scope(&self) -> (r: bool)
        ensures
            r == self.is_open(),
    {
        self.open
    }

    /// Forgets every tuple shape and tuple path: the start of the build
    /// of another contract.
    pub fn reset(&mut self)
        ensures
            final(self).wf(),
            final(self).registry() == Seq::<Shape>::empty(),
            final(self).paths() == Map::<Seq<char>, String>::empty(),
            final(self).same_scope(old(self)),
    {
        self.tuples = Vec::new();
        self.mapping_tuples.clear();
        assert(self.registry() =~= Seq::<Shape>::empty());
    }

    /// Takes the outcome of a generator call: a failure closes the scope
    /// of the contract, and the outcome is handed on as it is.
    pub fn settle<T>(&mut self, outcome: Result<T, BindError>) -> (r: Result<T, BindError>)
        ensures
            r == outcome,
            final(self).is_open() == (old(self).is_open() && outcome is Ok),
            final(self).has_deployed() == old(self).has_deployed(),
            final(self).journal() == old(self).journal(),
            final(self).same_tuples(old(self)),
    {
        if outcome.is_err() {
            self.open = false;
        }
        outcome
    }

    /// Takes the outcome of the generator call that emitted the tuple
    /// shape `key`: the path it gave is recorded for the key unless one
    /// is recorded already, and a failure closes the scope.
    pub fn accept_tuple(&mut self, key: &str, outcome: Result<String, BindError>) -> (r: Result<
        (),
        BindError,
    >)
        ensures
            match outcome {
                Ok(path) => r is Ok && final(self).is_open() == old(self).is_open() && final(self).paths() == if old(self).paths().contains_key(key@) {
                    old(self).paths()
                } else {
                    old(self).paths().insert(key@, path)
                },
                Err(e) => r == Err::<(), BindError>(e) && !final(self).is_open() && final(self).paths() == old(self).paths(),
            },
            final(self).paths().contains_key(key@) == (outcome is Ok || old(self).paths().contains_key(
                key@,
            )),
            final(self).registry() == old(self).registry(),
            final(self).has_deployed() == old(self).has_deployed(),
            final(self).journal() == old(self).journal(),
    {
        match outcome {
            Ok(path) => {
                self.register_tuple_mapping(key, path);
                Ok(())
            },
            Err(e) => {
                self.open = false;
                Err(e)
            },
        }
    }

    /// Opens the scope of the contract `contract_name` at the generator.
    /// Refused while a scope is open.
    pub fn begin<G: Generator>(&mut self, generator: &mut G, contract_name: &str) -> (r: Result<
        (),
        BindError,
    >)
        ensures
            final(self).same_tuples(old(self)),
            old(self).is_open() ==> refused(r, ProtocolError::AlreadyOpen) && final(self).same_scope(
                old(self),
            ),
            !old(self).is_open() ==> {
                &&& final(self).journal() == old(self).journal().push(
                    Call::Begin { name: contract_name@ },
                )
                &&& final(self).is_open() == (r is Ok)
                &&& !final(self).has_deployed()
                &&& receives(
                    old(generator).received(),
                    final(generator).received(),
                    Call::Begin { name: contract_name@ },
                )
                &&& old(generator).infallible() ==> r is Ok && final(generator).infallible()
            },
            old(self).is_open() ==> *final(generator) == *old(generator),
    {
        if self.open {
            return Err(BindError::Protocol(ProtocolError::AlreadyOpen));
        }
        self.journal = Ghost(self.journal@.push(Call::Begin { name: contract_name@ }));
        self.deployed = false;
        self.open = true;
        let outcome = generator.begin(&*self, contract_name);
        self.settle(outcome)
    }

    /// The place of the tuple shape registered under `name`.
    fn position(&self, name: &str) -> (r: Option<usize>)
        ensures
            match r {
                Some(i) => i < self.registry().len() && self.registry()[i as int].key == name@,
                None => !has_key(self.registry(), name@),
            },
    {
        let mut i: usize = 0;
        while i < self.tuples.len()
            invariant
                i <= self.tuples.len(),
                forall|j: int| 0 <= j < i ==> (#[trigger] self.registry()[j]).key != name@,
            decreases self.tuples.len() - i,
        {
            if same_text(self.tuples[i].key.as_str(), name) {
                assert(self.registry()[i as int].key == name@);
                return Some(i);
            }
            i += 1;
        }
        None
    }

    /// Emits the tuple shape registered under `key` at the generator and
    /// records the path that the generator gives for it. Refused outside
    /// an open scope; fails for a key that is not registered.
    pub fn emit_tuple<G: Generator>(&mut self, generator: &mut G, key: &str) -> (r: Result<
        (),
        BindError,
    >)
        ensures
            final(self).registry() == old(self).registry(),
            final(self).has_deployed() == old(self).has_deployed(),
            !old(self).is_open() ==> refused(r, ProtocolError::NotOpen) && final(self).same_scope(
                old(self),
            ) && final(self).paths() == old(self).paths(),
            old(self).is_open() && !has_key(old(self).registry(), key@) ==> {
                &&& r is Err
                &&& r->Err_0@ == BindErrorView::Mapping(TypeMappingErrorView::NotFound(key@))
                &&& final(self).same_scope(old(self))
                &&& final(self).paths() == old(self).paths()
            },
            !(old(self).is_open() && has_key(old(self).registry(), key@)) ==> *final(generator)
                == *old(generator),
            old(self).is_open() && has_key(old(self).registry(), key@) ==> {
                &&& exists|i: int|
                    0 <= i < old(self).registry().len() && (#[trigger] old(self).registry()[i]).key
                        == key@ && final(self).journal() == old(self).journal().push(
                        Call::Tuple { key: key@, fields: old(self).registry()[i].fields },
                    ) && receives(
                        old(generator).received(),
                        final(generator).received(),
                        Call::Tuple { key: key@, fields: old(self).registry()[i].fields },
                    )
                &&& old(generator).infallible() ==> r is Ok && final(generator).infallible()
                &&& final(self).is_open() == (r is Ok)
                &&& forall|k: Seq<char>| #[trigger]
                    old(self).paths().contains_key(k) ==> final(self).paths().contains_key(k)
                &&& r is Ok ==> final(self).paths().contains_key(key@)
            },
    {
        if !self.open {
            return Err(BindError::Protocol(ProtocolError::NotOpen));
        }
        let index = match self.position(key) {
            Some(index) => index,
            None => {
                return Err(BindError::Mapping(TypeMappingError::NotFound(String::from_str(key))));
            },
        };
        let ghost shape = self.registry()[index as int];
        self.journal = Ghost(self.journal@.push(Call::Tuple { key: key@, fields: shape.fields }));
        let outcome = generator.generate_tuple(&*self, key, &self.tuples[index].fields);
        let r = self.accept_tuple(key, outcome);
        assert(old(self).registry()[index as int].key == key@);
        r
    }

    /// Emits the binding of a function at the generator. Refused outside
    /// an open scope.
    pub fn emit_function<G: Generator>(&mut self, generator: &mut G, function: &Function) -> (r:
        Result<(), BindError>)
        ensures
            final(self).same_tuples(old(self)),
            final(self).has_deployed() == old(self).has_deployed(),
            !old(self).is_open() ==> refused(r, ProtocolError::NotOpen) && final(self).same_scope(
                old(self),
            ),
            old(self).is_open() ==> final(self).journal() == old(self).journal().push(
                Call::Function(*function),
            ) && final(self).is_open() == (r is Ok),
            old(self).is_open() ==> receives(
                old(generator).received(),
                final(generator).received(),
                Call::Function(*function),
            ),
            old(self).is_open() && old(generator).infallible() ==> r is Ok && final(generator).infallible(),
            !old(self).is_open() ==> *final(generator) == *old(generator),
    {
        if !self.open {
            return Err(BindError::Protocol(ProtocolError::NotOpen));
        }
        self.journal = Ghost(self.journal@.push(Call::Function(*function)));
        let outcome = generator.generate_function(&*self, function);
        self.settle(outcome)
    }

    /// Emits the binding of an event at the generator. Refused outside
    /// an open scope.
    pub fn emit_event<G: Generator>(&mut self, generator: &mut G, event: &Event) -> (r: Result<
        (),
        BindError,
    >)
        ensures
            final(self).same_tuples(old(self)),
            final(self).has_deployed() == old(self).has_deployed(),
            !old(self).is_open() ==> refused(r, ProtocolError::NotOpen) && final(self).same_scope(
                old(self),
            ),
            old(self).is_open() ==> final(self).journal() == old(self).journal().push(
                Call::Event(*event),
            ) && final(self).is_open() == (r is Ok),
            old(self).is_open() ==> receives(
                old(generator).received(),
                final(generator).received(),
                Call::Event(*event),
            ),
            old(self).is_open() && old(generator).infallible() ==> r is Ok && final(generator).infallible(),
            !old(self).is_open() ==> *final(generator) == *old(generator),
    {
        if !self.open {
            return Err(BindError::Protocol(ProtocolError::NotOpen));
        }
        self.journal = Ghost(self.journal@.push(Call::Event(*event)));
        let outcome = generator.generate_event(&*self, event);
        self.settle(outcome)
    }

    /// Emits the binding of an error at the generator. Refused outside
    /// an open scope.
    pub fn emit_error<G: Generator>(&mut self, generator: &mut G, error: &Error) -> (r: Result<
        (),
        BindError,
    >)
        ensures
            final(self).same_tuples(old(self)),
            final(self).has_deployed() == old(self).has_deployed(),
            !old(self).is_open() ==> refused(r, ProtocolError::NotOpen) && final(self).same_scope(
                old(self),
            ),
            old(self).is_open() ==> final(self).journal() == old(self).journal().push(
                Call::Error(*error),
            ) && final(self).is_open() == (r is Ok),
            old(self).is_open() ==> receives(
                old(generator).received(),
                final(generator).received(),
                Call::Error(*error),
            ),
            old(self).is_open() && old(generator).infallible() ==> r is Ok && final(generator).infallible(),
            !old(self).is_open() ==> *final(generator) == *old(generator),
    {
        if !self.open {
            return Err(BindError::Protocol(ProtocolError::NotOpen));
        }
        self.journal = Ghost(self.journal@.push(Call::Error(*error)));
        let outcome = generator.generate_error(&*self, error);
        self.settle(outcome)
    }

    /// Emits the deploy binding at the generator. Refused outside an
    /// open scope, without bytecode, and a second time in one scope.
    pub fn emit_deploy<G: Generator>(
        &mut self,
        generator: &mut G,
        bytecode: Option<&str>,
        inputs: &Vec<Parameter>,
    ) -> (r: Result<(), BindError>)
        ensures
            final(self).same_tuples(old(self)),
            !old(self).is_open() ==> refused(r, ProtocolError::NotOpen) && final(self).same_scope(
                old(self),
            ),
            old(self).is_open() && bytecode is None ==> refused(r, ProtocolError::NoDeployData)
                && final(self).same_scope(old(self)),
            old(self).is_open() && bytecode is Some && old(self).has_deployed() ==> refused(
                r,
                ProtocolError::DeployedTwice,
            ) && final(self).same_scope(old(self)),
            old(self).is_open() && bytecode is Some && !old(self).has_deployed() ==> {
                &&& final(self).journal() == old(self).journal().push(
                    Call::Deploy { bytecode: bytecode->0@, inputs: parameters_view(inputs@) },
                )
                &&& final(self).is_open() == (r is Ok)
                &&& final(self).has_deployed()
                &&& receives(
                    old(generator).received(),
                    final(generator).received(),
                    Call::Deploy { bytecode: bytecode->0@, inputs: parameters_view(inputs@) },
                )
                &&& old(generator).infallible() ==> r is Ok && final(generator).infallible()
            },
            !(old(self).is_open() && bytecode is Some && !old(self).has_deployed()) ==> *final(generator) == *old(generator),
    {
        if !self.open {
            return Err(BindError::Protocol(ProtocolError::NotOpen));
        }
        let code = match bytecode {
            Some(code) => code,
            None => {
                return Err(BindError::Protocol(ProtocolError::NoDeployData));
            },
        };
        if self.deployed {
            return Err(BindError::Protocol(ProtocolError::DeployedTwice));
        }
        self.journal = Ghost(
            self.journal@.push(Call::Deploy { bytecode: code@, inputs: parameters_view(inputs@) }),
        );
        self.deployed = true;
        let outcome = generator.generate_deploy(&*self, code, inputs);
        self.settle(outcome)
    }

    /// Closes the scope of the contract at the generator and hands on
    /// what it generated. Refused outside an open scope; after it every
    /// emit call is refused until the next `begin`.
    pub fn finalize<G: Generator>(&mut self, generator: &mut G) -> (r: Result<Contract, BindError>)
        ensures
            final(self).same_tuples(old(self)),
            final(self).has_deployed() == old(self).has_deployed(),
            !final(self).is_open(),
            !old(self).is_open() ==> refused(r, ProtocolError::NotOpen) && final(self).same_scope(
                old(self),
            ),
            old(self).is_open() ==> final(self).journal() == old(self).journal().push(
                Call::Finalize,
            ),
            old(self).is_open() ==> receives(
                old(generator).received(),
                final(generator).received(),
                Call::Finalize,
            ),
            old(self).is_open() && old(generator).infallible() ==> r is Ok && final(generator).infallible(),
            !old(self).is_open() ==> *final(generator) == *old(generator),
    {
        if !self.open {
            return Err(BindError::Protocol(ProtocolError::NotOpen));
        }
        self.journal = Ghost(self.journal@.push(Call::Finalize));
        let outcome = generator.finalize(&*self);
        self.open = false;
        outcome
    }
}

/// Whether the journal went from `before` to `after` by a nonempty
/// opening part of `run`: the calls of `run` were made in order up to
/// one that failed.
pub open spec fn stopped_within(before: Seq<Call>, after: Seq<Call>, run: Seq<Call>) -> bool {
    exists|k: int| 1 <= k <= run.len() && after == before + #[trigger] run.take(k)
}

/// A nonempty opening part of a run is where a build may stop.
proof fn lemma_stopped(before: Seq<Call>, part: Seq<Call>, run: Seq<Call>)
    requires
        part.is_prefix_of(run),
        part.len() >= 1,
    ensures
        stopped_within(before, before + part, run),
{
    assert(run.take(part.len() as int) =~= part);
}

/// A record that has followed the journal so far follows it through
/// one more call that both take down.
proof fn lemma_heard_step(
    heard: Option<Seq<Call>>,
    told: Option<Seq<Call>>,
    now: Option<Seq<Call>>,
    start: Seq<Call>,
    written: Seq<Call>,
    call: Call,
)
    requires
        start.len() <= written.len(),
        received_all(heard, told, written.skip(start.len() as int)),
        receives(told, now, call),
    ensures
        received_all(heard, now, written.push(call).skip(start.len() as int)),
{
    if heard is Some {
        let part = written.skip(start.len() as int);
        assert(written.push(call).skip(start.len() as int) =~= part.push(call));
        assert((heard->0 + part).push(call) =~= heard->0 + part.push(call));
    }
}

/// The index of the first constructor among `fields`, or their number.
fn find_constructor(fields: &Vec<AbiField>) -> (r: usize)
    ensures
        r == constructor_index(fields@, fields@.len() as int),
        r <= fields.len(),
        r < fields.len() ==> fields@[r as int] is Constructor,
{
    let mut i: usize = 0;
    while i < fields.len()
        invariant
            i <= fields.len(),
            constructor_index(fields@, i as int) == i,
        decreases fields.len() - i,
    {
        if let AbiField::Constructor(_) = &fields[i] {
            proof {
                lemma_constructor_found(fields@, i as int, fields@.len() as int);
            }
            return i;
        }
        i += 1;
    }
    i
}

/// Once a constructor is found, it stays the first.
proof fn lemma_constructor_found(fields: Seq<AbiField>, i: int, n: int)
    requires
        0 <= i < n <= fields.len(),
        constructor_index(fields, i) == i,
        fields[i] is Constructor,
    ensures
        constructor_index(fields, n) == i,
    decreases n - i,
{
    if n > i + 1 {
        lemma_constructor_found(fields, i, n - 1);
    }
}

impl Executor {
    /// Registers each tuple among the parameters of `list`, in order.
    pub fn register_parameters(&mut self, list: &Vec<Parameter>)
        requires
            old(self).wf(),
        ensures
            final(self).wf(),
            final(self).registry() == with_children(
                old(self).registry(),
                parameters_view(list@),
                list@.len() as int,
            ),
            final(self).paths() == old(self).paths(),
            final(self).same_scope(old(self)),
    {
        let ghost params = parameters_view(list@);
        let ghost start = self.registry();
        let mut i: usize = 0;
        while i < list.len()
            invariant
                i <= list.len(),
                params == parameters_view(list@),
                self.wf(),
                self.registry() == with_children(start, params, i as int),
                self.paths() == old(self).paths(),
                self.same_scope(old(self)),
            decreases list.len() - i,
        {
            assert(params[i as int] == parameter_view(list@[i as int]));
            if let Some(fields) = &list[i].components {
                self.tuple_name(fields);
            }
            i += 1;
        }
    }

    /// The pre-pass over a contract: registers the tuple shapes of every
    /// input list, and of every output list of a function, in the
    /// declared order of the fields.
    pub fn register_tuples(&mut self, fields: &Vec<AbiField>)
        requires
            old(self).wf(),
        ensures
            final(self).wf(),
            final(self).registry() == with_fields(
                old(self).registry(),
                fields@,
                fields@.len() as int,
            ),
            final(self).paths() == old(self).paths(),
            final(self).same_scope(old(self)),
    {
        let ghost start = self.registry();
        let mut i: usize = 0;
        while i < fields.len()
            invariant
                i <= fields.len(),
                self.wf(),
                self.registry() == with_fields(start, fields@, i as int),
                self.paths() == old(self).paths(),
                self.same_scope(old(self)),
            decreases fields.len() - i,
        {
            match &fields[i] {
                AbiField::Constructor(constructor) => {
                    self.register_parameters(&constructor.inputs);
                },
                AbiField::Function(function) => {
                    self.register_parameters(&function.inputs);
                    self.register_parameters(&function.outputs);
                },
                AbiField::Event(event) => {
                    self.register_parameters(&event.inputs);
                },
                AbiField::Error(error) => {
                    self.register_parameters(&error.inputs);
                },
                _ => {},
            }
            i += 1;
        }
    }

    /// Builds the bindings of one contract: forgets the tuples of the
    /// contract before, registers every tuple shape of this one, and
    /// drives the generator through the lifecycle. The first failure
    /// ends the build; the calls made up to it stay in the journal.
    /// Refused while a scope is open.
    pub fn generate_one<G: Generator>(&mut self, generator: &mut G, contract: &ContractDescriptor) -> (r:
        Result<Contract, BindError>)
        ensures
            old(self).is_open() ==> refused(r, ProtocolError::AlreadyOpen) && final(self).same_scope(
                old(self),
            ) && final(self).same_tuples(old(self)),
            !old(self).is_open() ==> {
                &&& final(self).wf()
                &&& !final(self).is_open()
                &&& final(self).registry() == with_fields(
                    Seq::empty(),
                    contract.fields@,
                    contract.fields@.len() as int,
                )
                &&& r is Ok ==> final(self).journal() == old(self).journal() + lifecycle(
                    contract@,
                    final(self).registry(),
                )
                &&& r is Ok ==> forall|i: int|
                    0 <= i < final(self).registry().len() ==> final(self).paths().contains_key(
                        (#[trigger] final(self).registry()[i]).key,
                    )
                &&& r is Err ==> stopped_within(
                    old(self).journal(),
                    final(self).journal(),
                    lifecycle(contract@, final(self).registry()),
                )
                &&& received_all(
                    old(generator).received(),
                    final(generator).received(),
                    final(self).journal().skip(old(self).journal().len() as int),
                )
                &&& old(generator).infallible() ==> r is Ok && final(generator).infallible()
            },
            old(self).is_open() ==> *final(generator) == *old(generator),
    {
        if self.open {
            return Err(BindError::Protocol(ProtocolError::AlreadyOpen));
        }
        let ghost start = self.journal();
        let ghost heard = generator.received();
        let ghost sure = generator.infallible();
        assert(start.skip(start.len() as int) =~= Seq::<Call>::empty());
        assert(heard is Some ==> heard->0 + Seq::<Call>::empty() =~= heard->0);
        self.reset();
        self.register_tuples(contract.fields);
        let ghost registry = self.registry();
        let ghost run = lifecycle(contract@, registry);
        let count = self.tuples.len();
        let fields = contract.fields;
        proof {
            lemma_lifecycle_stages(contract@, registry, 0, 0);
            assert(tuple_calls(registry, 0) =~= Seq::<Call>::empty());
            assert(lifecycle_to_tuple(contract@, registry, 0) =~= seq![
                Call::Begin { name: contract.name@ },
            ]);
        }
        let outcome = self.begin(generator, contract.name);
        proof {
            lemma_heard_step(
                heard,
                heard,
                generator.received(),
                start,
                start,
                Call::Begin { name: contract.name@ },
            );
        }
        match outcome {
            Ok(()) => {},
            Err(e) => {
                proof {
                    assert(self.journal() =~= start + lifecycle_to_tuple(contract@, registry, 0));
                    lemma_stopped(start, lifecycle_to_tuple(contract@, registry, 0), run);
                }
                return Err(e);
            },
        }
        assert(self.journal() =~= start + lifecycle_to_tuple(contract@, registry, 0));
        let mut i: usize = 0;
        while i < count
            invariant
                i <= count == registry.len(),
                !old(self).is_open(),
                start == old(self).journal(),
                heard == old(generator).received(),
                sure == old(generator).infallible(),
                sure ==> generator.infallible(),
                received_all(heard, generator.received(), self.journal().skip(start.len() as int)),
                self.wf(),
                self.is_open(),
                !self.has_deployed(),
                self.registry() == registry,
                registry == with_fields(Seq::empty(), contract.fields@, contract.fields@.len() as int),
                run == lifecycle(contract@, registry),
                self.journal() == start + lifecycle_to_tuple(contract@, registry, i as int),
                forall|j: int| 0 <= j < i ==> self.paths().contains_key((#[trigger] registry[j]).key),
            decreases count - i,
        {
            let key = self.tuples[i].key.clone();
            assert(key@ == registry[i as int].key);
            let ghost told = generator.received();
            let ghost written = self.journal();
            let outcome = self.emit_tuple(generator, key.as_str());
            proof {
                lemma_heard_step(
                    heard,
                    told,
                    generator.received(),
                    start,
                    written,
                    Call::Tuple { key: registry[i as int].key, fields: registry[i as int].fields },
                );
                lemma_lifecycle_stages(contract@, registry, i + 1, 0);
                assert(tuple_calls(registry, i + 1) =~= tuple_calls(registry, i as int).push(
                    Call::Tuple { key: registry[i as int].key, fields: registry[i as int].fields },
                ));
                assert(self.journal() =~= start + lifecycle_to_tuple(contract@, registry, i + 1));
            }
            match outcome {
                Ok(()) => {},
                Err(e) => {
                    proof {
                        lemma_stopped(start, lifecycle_to_tuple(contract@, registry, i + 1), run);
                    }
                    return Err(e);
                },
            }
            i += 1;
        }
        assert(self.journal() =~= start + lifecycle_to_field(contract@, registry, 0));
        let mut j: usize = 0;
        while j < fields.len()
            invariant
                j <= fields.len(),
                fields == contract.fields,
                !old(self).is_open(),
                start == old(self).journal(),
                heard == old(generator).received(),
                sure == old(generator).infallible(),
                sure ==> generator.infallible(),
                received_all(heard, generator.received(), self.journal().skip(start.len() as int)),
                self.wf(),
                self.is_open(),
                !self.has_deployed(),
                self.registry() == registry,
                registry == with_fields(Seq::empty(), contract.fields@, contract.fields@.len() as int),
                run == lifecycle(contract@, registry),
                self.journal() == start + lifecycle_to_field(contract@, registry, j as int),
                forall|k: int|
                    0 <= k < registry.len() ==> self.paths().contains_key((#[trigger] registry[k]).key),
            decreases fields.len() - j,
        {
            let ghost told = generator.received();
            let ghost written = self.journal();
            let outcome = match &fields[j] {
                AbiField::Function(function) => self.emit_function(generator, function),
                AbiField::Event(event) => self.emit_event(generator, event),
                AbiField::Error(error) => self.emit_error(generator, error),
                _ => Ok(()),
            };
            proof {
                match fields@[j as int] {
                    AbiField::Function(function) => lemma_heard_step(
                        heard,
                        told,
                        generator.received(),
                        start,
                        written,
                        Call::Function(function),
                    ),
                    AbiField::Event(event) => lemma_heard_step(
                        heard,
                        told,
                        generator.received(),
                        start,
                        written,
                        Call::Event(event),
                    ),
                    AbiField::Error(error) => lemma_heard_step(
                        heard,
                        told,
                        generator.received(),
                        start,
                        written,
                        Call::Error(error),
                    ),
                    _ => {},
                }
                lemma_lifecycle_stages(contract@, registry, 0, j + 1);
                assert(self.journal() =~= start + lifecycle_to_field(contract@, registry, j + 1));
            }
            match outcome {
                Ok(()) => {},
                Err(e) => {
                    proof {
                        lemma_stopped(start, lifecycle_to_field(contract@, registry, j + 1), run);
                    }
                    return Err(e);
                },
            }
            j += 1;
        }
        let ghost told = generator.received();
        let ghost written = self.journal();
        if contract.bytecode.is_some() {
            let at = find_constructor(fields);
            let outcome = if at < fields.len() {
                match &fields[at] {
                    AbiField::Constructor(constructor) => self.emit_deploy(
                        generator,
                        contract.bytecode,
                        &constructor.inputs,
                    ),
                    _ => Ok(()),
                }
            } else {
                let none: Vec<Parameter> = Vec::new();
                assert(parameters_view(none@) =~= Seq::<ParameterView>::empty());
                self.emit_deploy(generator, contract.bytecode, &none)
            };
            proof {
                lemma_lifecycle_stages(contract@, registry, 0, 0);
                assert(self.journal() =~= start + lifecycle_to_deploy(contract@, registry));
                lemma_heard_step(
                    heard,
                    told,
                    generator.received(),
                    start,
                    written,
                    Call::Deploy {
                        bytecode: contract@.bytecode->0,
                        inputs: constructor_inputs(contract.fields@),
                    },
                );
            }
            match outcome {
                Ok(()) => {},
                Err(e) => {
                    proof {
                        lemma_stopped(start, lifecycle_to_deploy(contract@, registry), run);
                    }
                    return Err(e);
                },
            }
        } else {
            assert(self.journal() =~= start + lifecycle_to_deploy(contract@, registry));
        }
        let ghost told = generator.received();
        let ghost written = self.journal();
        let r = self.finalize(generator);
        proof {
            lemma_heard_step(heard, told, generator.received(), start, written, Call::Finalize);
            lemma_lifecycle_stages(contract@, registry, 0, 0);
            assert(self.journal() =~= start + run);
            if r is Err {
                assert(run.take(run.len() as int) =~= run);
            }
        }
        r
    }
}

/// Resolving a type twice against the same templates and the same
/// tuple paths gives the same text, character for character, or the
/// same failure.
pub proof fn lemma_mapping_is_deterministic<TM: TypeMapping>(
    type_mapping: &TM,
    paths: Map<Seq<char>, String>,
    ty: Type,
    tuple: Seq<ParameterView>,
    first: Result<String, TypeMappingError>,
    second: Result<String, TypeMappingError>,
)
    requires
        mapped(first, mapping_of(type_mapping, paths, ty, tuple)),
        mapped(second, mapping_of(type_mapping, paths, ty, tuple)),
    ensures
        match (first, second) {
            (Ok(a), Ok(b)) => a@ == b@,
            (Err(a), Err(b)) => a@ == b@,
            _ => false,
        },
{
}

impl Default for Executor {
    /// An executor with nothing registered, as [`Executor::new`] gives it.
    fn default() -> (r: Self)
        ensures
            r.wf(),
            r.registry() == Seq::<Shape>::empty(),
            r.paths() == Map::<Seq<char>, String>::empty(),
            !r.is_open(),
            !r.has_deployed(),
            r.journal() == Seq::<Call>::empty(),
    {
        Executor::new()
    }
}

} // verus!
