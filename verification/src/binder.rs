//! The runtime binder: from interface types to the runtime types of a
//! target language, each with its declaration and the texts of its
//! encode and decode calls.
use crate::error::{BindError, BindErrorView, TypeMappingError, TypeMappingErrorView};
use crate::grammar::simple_name;
use crate::json::{Array, ArrayM, BytesM, FixedMN, IntegerM, SimpleType, Type};
use crate::text::{decimal, decimal_string, replace, replace_all};
use vstd::hash_map::StringHashMap;
use vstd::prelude::*;
use vstd::string::*;

verus! {

/// A type of the target language, as the generated code writes it.
pub trait RuntimeType {
    /// The type as written in a declaration.
    spec fn declaration(&self) -> Seq<char>;

    /// The text of the call that encodes the variable `variable_name`.
    spec fn encode_call(&self, variable_name: Seq<char>) -> Seq<char>;

    /// The text of the call that decodes a value from `source`.
    spec fn decode_call(&self, source: Seq<char>) -> Seq<char>;

    /// The type as written in a declaration.
    fn declare_type(&self) -> (r: &str)
        ensures
            r@ == self.declaration(),
    ;

    /// The text of the call that encodes the variable `variable_name`.
    fn rlp_encode(&self, variable_name: &str) -> (r: String)
        ensures
            r@ == self.encode_call(variable_name@),
    ;

    /// The text of the call that decodes a value from `inputs_variable_name`.
    fn rlp_decode(&self, inputs_variable_name: &str) -> (r: String)
        ensures
            r@ == self.decode_call(inputs_variable_name@),
    ;
}

/// A runtime type given by three templates.
#[derive(Debug)]
pub struct JsonRuntimeType {
    /// The declaration of the type.
    pub declare_type: String,
    /// The encode call, with `$var` for the variable.
    pub rlp_encode: String,
    /// The decode call, with `$inputs` for the source.
    pub rlp_decode: String,
}

/// The mathematical content of a [`JsonRuntimeType`].
pub struct RuntimeTypeView {
    pub declare_type: Seq<char>,
    pub rlp_encode: Seq<char>,
    pub rlp_decode: Seq<char>,
}

impl View for JsonRuntimeType {
    type V = RuntimeTypeView;

    open spec fn view(&self) -> RuntimeTypeView {
        RuntimeTypeView {
            declare_type: self.declare_type@,
            rlp_encode: self.rlp_encode@,
            rlp_decode: self.rlp_decode@,
        }
    }
}

impl Clone for JsonRuntimeType {
    fn clone(&self) -> (r: Self)
        ensures
            r@ == self@,
    {
        JsonRuntimeType {
            declare_type: self.declare_type.clone(),
            rlp_encode: self.rlp_encode.clone(),
            rlp_decode: self.rlp_decode.clone(),
        }
    }
}

impl RuntimeType for JsonRuntimeType {
    open spec fn declaration(&self) -> Seq<char> {
        self.declare_type@
    }

    /// The encode template with the variable for `$var`.
    open spec fn encode_call(&self, variable_name: Seq<char>) -> Seq<char> {
        replace_all(self.rlp_encode@, "$var"@, variable_name)
    }

    /// The decode template with the source for `$inputs`.
    open spec fn decode_call(&self, source: Seq<char>) -> Seq<char> {
        replace_all(self.rlp_decode@, "$inputs"@, source)
    }

    fn declare_type(&self) -> (r: &str) {
        self.declare_type.as_str()
    }

    fn rlp_encode(&self, variable_name: &str) -> (r: String) {
        replace(self.rlp_encode.as_str(), "$var", variable_name)
    }

    fn rlp_decode(&self, inputs_variable_name: &str) -> (r: String) {
        replace(self.rlp_decode.as_str(), "$inputs", inputs_variable_name)
    }
}

impl RuntimeTypeView {
    /// The templates with the element type `element` for `$el`: its
    /// declaration in the declaration and in the decode call, its encode
    /// call in the encode call.
    pub open spec fn with_element(self, element: RuntimeTypeView) -> RuntimeTypeView {
        RuntimeTypeView {
            declare_type: replace_all(self.declare_type, "$el"@, element.declare_type),
            rlp_encode: replace_all(self.rlp_encode, "$el"@, element.rlp_encode),
            rlp_decode: replace_all(self.rlp_decode, "$el"@, element.declare_type),
        }
    }

    /// The templates with the number `n` for `placeholder`.
    pub open spec fn with_number(self, placeholder: Seq<char>, n: nat) -> RuntimeTypeView {
        RuntimeTypeView {
            declare_type: replace_all(self.declare_type, placeholder, decimal(n)),
            rlp_encode: replace_all(self.rlp_encode, placeholder, decimal(n)),
            rlp_decode: replace_all(self.rlp_decode, placeholder, decimal(n)),
        }
    }
}

impl JsonRuntimeType {
    /// A runtime type of these three templates.
    pub fn new(declare_type: &str, rlp_encode: &str, rlp_decode: &str) -> (r: Self)
        ensures
            r@ == (RuntimeTypeView {
                declare_type: declare_type@,
                rlp_encode: rlp_encode@,
                rlp_decode: rlp_decode@,
            }),
    {
        JsonRuntimeType {
            declare_type: String::from_str(declare_type),
            rlp_encode: String::from_str(rlp_encode),
            rlp_decode: String::from_str(rlp_decode),
        }
    }

    /// This type with the element type `element` for `$el`.
    pub fn with_element(&self, element: &JsonRuntimeType) -> (r: JsonRuntimeType)
        ensures
            r@ == self@.with_element(element@),
    {
        JsonRuntimeType {
            declare_type: replace(self.declare_type.as_str(), "$el", element.declare_type.as_str()),
            rlp_encode: replace(self.rlp_encode.as_str(), "$el", element.rlp_encode.as_str()),
            rlp_decode: replace(self.rlp_decode.as_str(), "$el", element.declare_type.as_str()),
        }
    }

    /// This type with the number `n` for `placeholder`.
    pub fn with_number(&self, placeholder: &str, n: usize) -> (r: JsonRuntimeType)
        ensures
            r@ == self@.with_number(placeholder@, n as nat),
    {
        let digits = decimal_string(n);
        JsonRuntimeType {
            declare_type: replace(self.declare_type.as_str(), placeholder, digits.as_str()),
            rlp_encode: replace(self.rlp_encode.as_str(), placeholder, digits.as_str()),
            rlp_decode: replace(self.rlp_decode.as_str(), placeholder, digits.as_str()),
        }
    }
}

/// Whether the outcome `r` is what the binder `expected`.
pub open spec fn bound(
    r: Result<Option<JsonRuntimeType>, BindError>,
    expected: Result<Option<RuntimeTypeView>, BindErrorView>,
) -> bool {
    match (r, expected) {
        (Ok(Some(a)), Ok(Some(b))) => a@ == b,
        (Ok(None), Ok(None)) => true,
        (Err(e), Err(v)) => e@ == v,
        _ => false,
    }
}

/// The runtime type that `types` holds under `name`.
pub open spec fn basic_type(types: Map<Seq<char>, JsonRuntimeType>, name: Seq<char>) -> Result<
    RuntimeTypeView,
    BindErrorView,
> {
    if types.contains_key(name) {
        Ok(types[name]@)
    } else {
        Err(BindErrorView::UnknownType(name))
    }
}

/// The runtime type of the interface type `t` under the templates
/// `types`: `None` for a tuple and for an array of tuples, the template
/// of its word for another simple type, and for the rest the template of
/// its category (`array_m`, `array`, `bytes_m`, `fixed_m_n`, `int_m`,
/// `uint_m`) with the element for `$el` and the numbers for `$m`, `$n`.
/// An array resolves its element first.
pub open spec fn runtime_type_of(types: Map<Seq<char>, JsonRuntimeType>, t: Type) -> Result<
    Option<RuntimeTypeView>,
    BindErrorView,
>
    decreases t,
{
    match t {
        Type::Simple(k) => if k == SimpleType::Tuple {
            Ok(None)
        } else {
            match basic_type(types, simple_name(k)) {
                Ok(rt) => Ok(Some(rt)),
                Err(e) => Err(e),
            }
        },
        Type::ArrayM(a) => match runtime_type_of(types, a.element) {
            Ok(Some(element)) => match basic_type(types, "array_m"@) {
                Ok(rt) => Ok(Some(rt.with_element(element).with_number("$m"@, a.m as nat))),
                Err(e) => Err(e),
            },
            Ok(None) => Ok(None),
            Err(e) => Err(e),
        },
        Type::Array(a) => match runtime_type_of(types, a.element) {
            Ok(Some(element)) => match basic_type(types, "array"@) {
                Ok(rt) => Ok(Some(rt.with_element(element))),
                Err(e) => Err(e),
            },
            Ok(None) => Ok(None),
            Err(e) => Err(e),
        },
        Type::BytesM(b) => match basic_type(types, "bytes_m"@) {
            Ok(rt) => Ok(Some(rt.with_number("$m"@, b.m as nat))),
            Err(e) => Err(e),
        },
        Type::FixedMN(f) => match basic_type(types, "fixed_m_n"@) {
            Ok(rt) => Ok(Some(rt.with_number("$m"@, f.m as nat).with_number("$n"@, f.n as nat))),
            Err(e) => Err(e),
        },
        Type::IntegerM(i) => match basic_type(
            types,
            if i.signed {
                "int_m"@
            } else {
                "uint_m"@
            },
        ) {
            Ok(rt) => Ok(Some(rt.with_number("$m"@, i.m as nat))),
            Err(e) => Err(e),
        },
    }
}

/// A runtime type that was built before, with the type it was built for.
pub struct Component {
    pub ty: Type,
    pub runtime_type: JsonRuntimeType,
}

/// A binder over a document of named runtime types. It remembers the
/// runtime types it has put together.
pub struct JsonRuntimeBinder {
    runtime_types: StringHashMap<JsonRuntimeType>,
    components: StringHashMap<Component>,
}

/// Whether the outcome `r` is the runtime type that `expected` names.
pub open spec fn found(
    r: Result<&JsonRuntimeType, BindError>,
    expected: Result<RuntimeTypeView, BindErrorView>,
) -> bool {
    match (r, expected) {
        (Ok(a), Ok(b)) => a@ == b,
        (Err(e), Err(v)) => e@ == v,
        _ => false,
    }
}

impl JsonRuntimeBinder {
    /// The runtime types of the document, by name.
    pub closed spec fn types(&self) -> Map<Seq<char>, JsonRuntimeType> {
        self.runtime_types@
    }

    /// What the binder has remembered: under the tag of a type, the
    /// runtime type that it once put together for that type.
    pub closed spec fn remembered(&self) -> Map<Seq<char>, Component> {
        self.components@
    }

    /// The invariant of the binder: every runtime type it has remembered
    /// is the one that its templates give for the type it was built for.
    pub closed spec fn wf(&self) -> bool {
        forall|tag: Seq<char>| #[trigger]
            self.components@.contains_key(tag) ==> runtime_type_of(
                self.runtime_types@,
                self.components@[tag].ty,
            ) == Ok::<Option<RuntimeTypeView>, BindErrorView>(
                Some(self.components@[tag].runtime_type@),
            )
    }

    /// A binder without runtime types.
    pub fn new() -> (r: Self)
        ensures
            r.wf(),
            r.types() == Map::<Seq<char>, JsonRuntimeType>::empty(),
    {
        JsonRuntimeBinder { runtime_types: StringHashMap::new(), components: StringHashMap::new() }
    }

    /// Sets the runtime type `name`, in place of an earlier one of that
    /// name. What the binder has remembered is forgotten.
    pub fn insert(&mut self, name: &str, runtime_type: JsonRuntimeType)
        ensures
            final(self).wf(),
            final(self).types() == old(self).types().insert(name@, runtime_type),
    {
        self.components.clear();
        self.runtime_types.insert(String::from_str(name), runtime_type);
    }

    /// The runtime type that the document holds under `name`.
    pub fn search_basic_type(&self, name: &str) -> (r: Result<&JsonRuntimeType, BindError>)
        ensures
            found(r, basic_type(self.types(), name@)),
    {
        match self.runtime_types.get(name) {
            Some(rt) => Ok(rt),
            None => Err(BindError::UnknownType(String::from_str(name))),
        }
    }

    /// The runtime type that the document holds under `name`.
    pub fn get(&self, name: &str) -> (r: Result<&JsonRuntimeType, BindError>)
        ensures
            found(r, basic_type(self.types(), name@)),
    {
        self.search_basic_type(name)
    }

    /// The runtime type remembered under `tag`, if it was built for `ty`:
    /// a copy of what is remembered there when the tag is known and its
    /// entry was built for this very type, and nothing otherwise.
    fn recall(&self, tag: &str, ty: &Type) -> (r: Option<JsonRuntimeType>)
        requires
            self.wf(),
        ensures
            r is Some <==> self.remembered().contains_key(tag@) && self.remembered()[tag@].ty
                == *ty,
            r is Some ==> r->0@ == self.remembered()[tag@].runtime_type@,
            r is Some ==> runtime_type_of(self.types(), *ty) == Ok::<
                Option<RuntimeTypeView>,
                BindErrorView,
            >(Some(r->0@)),
    {
        match self.components.get(tag) {
            Some(component) => {
                if component.ty.same(ty) {
                    assert(self.components@.contains_key(tag@));
                    Some(component.runtime_type.clone())
                } else {
                    None
                }
            },
            None => None,
        }
    }

    /// Remembers under `tag` the runtime type built for `ty`, in place
    /// of what was remembered under that tag before. Every other tag
    /// keeps its entry.
    fn remember(&mut self, tag: String, ty: Type, runtime_type: JsonRuntimeType)
        requires
            old(self).wf(),
            runtime_type_of(old(self).types(), ty) == Ok::<Option<RuntimeTypeView>, BindErrorView>(
                Some(runtime_type@),
            ),
        ensures
            final(self).wf(),
            final(self).types() == old(self).types(),
            final(self).remembered() == old(self).remembered().insert(
                tag@,
                Component { ty, runtime_type },
            ),
    {
        let ghost before = self.components@;
        self.components.insert(tag, Component { ty, runtime_type });
        assert forall|t: Seq<char>| #[trigger] self.components@.contains_key(t) implies runtime_type_of(
            self.runtime_types@,
            self.components@[t].ty,
        ) == Ok::<Option<RuntimeTypeView>, BindErrorView>(
            Some(self.components@[t].runtime_type@),
        ) by {
            if t != tag@ {
                assert(before.contains_key(t));
            }
        }
    }

    /// The runtime type of a fixed-length array: the template `array_m`
    /// with the runtime type of the element for `$el` and the length for
    /// `$m`; `None` for an array of tuples.
    pub fn to_array_m(&mut self, element: &ArrayM) -> (r: Result<Option<JsonRuntimeType>, BindError>)
        requires
            old(self).wf(),
        ensures
            final(self).wf(),
            final(self).types() == old(self).types(),
            bound(r, runtime_type_of(old(self).types(), Type::ArrayM(Box::new(*element)))),
        decreases *element,
    {
        let ty = Type::ArrayM(Box::new(element.clone()));
        let tag = ty.to_string();
        if let Some(known) = self.recall(tag.as_str(), &ty) {
            return Ok(Some(known));
        }
        let el_type = match self.to_runtime_type(&element.element) {
            Ok(Some(el_type)) => el_type,
            Ok(None) => {
                return Ok(None);
            },
            Err(e) => {
                return Err(e);
            },
        };
        let rtype = match self.search_basic_type("array_m") {
            Ok(runtime_type) => runtime_type.with_element(&el_type).with_number("$m", element.m),
            Err(e) => {
                return Err(e);
            },
        };
        self.remember(tag, ty, rtype.clone());
        Ok(Some(rtype))
    }

    /// The runtime type of a binary value of `m` bytes: the template
    /// `bytes_m` with the length for `$m`.
    pub fn to_bytes_m(&mut self, m: usize) -> (r: Result<JsonRuntimeType, BindError>)
        requires
            old(self).wf(),
        ensures
            final(self).wf(),
            final(self).types() == old(self).types(),
            bound(
                match r {
                    Ok(rt) => Ok(Some(rt)),
                    Err(e) => Err(e),
                },
                runtime_type_of(old(self).types(), Type::BytesM(BytesM { m })),
            ),
    {
        let ty = Type::BytesM(BytesM { m });
        let mut tag = String::from_str("array");
        tag.append(decimal_string(m).as_str());
        if let Some(known) = self.recall(tag.as_str(), &ty) {
            return Ok(known);
        }
        let rtype = match self.search_basic_type("bytes_m") {
            Ok(runtime_type) => runtime_type.with_number("$m", m),
            Err(e) => {
                return Err(e);
            },
        };
        self.remember(tag, ty, rtype.clone());
        Ok(rtype)
    }

    /// The runtime type of a dynamic array: the template `array` with
    /// the runtime type of the element for `$el`; `None` for an array of
    /// tuples.
    pub fn to_array(&mut self, element: &Array) -> (r: Result<Option<JsonRuntimeType>, BindError>)
        requires
            old(self).wf(),
        ensures
            final(self).wf(),
            final(self).types() == old(self).types(),
            bound(r, runtime_type_of(old(self).types(), Type::Array(Box::new(*element)))),
        decreases *element,
    {
        let ty = Type::Array(Box::new(element.clone()));
        let tag = ty.to_string();
        if let Some(known) = self.recall(tag.as_str(), &ty) {
            return Ok(Some(known));
        }
        let el_type = match self.to_runtime_type(&element.element) {
            Ok(Some(el_type)) => el_type,
            Ok(None) => {
                return Ok(None);
            },
            Err(e) => {
                return Err(e);
            },
        };
        let rtype = match self.search_basic_type("array") {
            Ok(runtime_type) => runtime_type.with_element(&el_type),
            Err(e) => {
                return Err(e);
            },
        };
        self.remember(tag, ty, rtype.clone());
        Ok(Some(rtype))
    }

    /// The runtime type of a fixed-point number: the template
    /// `fixed_m_n` with the bit width for `$m` and the fractional digits
    /// for `$n`.
    pub fn to_fixed_m_n(&mut self, fixed: &FixedMN) -> (r: Result<JsonRuntimeType, BindError>)
        requires
            old(self).wf(),
        ensures
            final(self).wf(),
            final(self).types() == old(self).types(),
            bound(
                match r {
                    Ok(rt) => Ok(Some(rt)),
                    Err(e) => Err(e),
                },
                runtime_type_of(old(self).types(), Type::FixedMN(*fixed)),
            ),
    {
        let ty = Type::FixedMN(*fixed);
        let tag = fixed.to_string();
        if let Some(known) = self.recall(tag.as_str(), &ty) {
            return Ok(known);
        }
        let rtype = match self.search_basic_type("fixed_m_n") {
            Ok(runtime_type) => runtime_type.with_number("$m", fixed.m).with_number("$n", fixed.n),
            Err(e) => {
                return Err(e);
            },
        };
        self.remember(tag, ty, rtype.clone());
        Ok(rtype)
    }

    /// The runtime type of an integer: the template `int_m`, or `uint_m`
    /// for an unsigned type, with the bit width for `$m`.
    pub fn to_integer_m(&mut self, integer_m: &IntegerM) -> (r: Result<JsonRuntimeType, BindError>)
        requires
            old(self).wf(),
        ensures
            final(self).wf(),
            final(self).types() == old(self).types(),
            bound(
                match r {
                    Ok(rt) => Ok(Some(rt)),
                    Err(e) => Err(e),
                },
                runtime_type_of(old(self).types(), Type::IntegerM(*integer_m)),
            ),
    {
        let ty = Type::IntegerM(*integer_m);
        let tag = integer_m.to_string();
        if let Some(known) = self.recall(tag.as_str(), &ty) {
            return Ok(known);
        }
        let found = if integer_m.signed {
            self.search_basic_type("int_m")
        } else {
            self.search_basic_type("uint_m")
        };
        let rtype = match found {
            Ok(runtime_type) => runtime_type.with_number("$m", integer_m.m),
            Err(e) => {
                return Err(e);
            },
        };
        self.remember(tag, ty, rtype.clone());
        Ok(rtype)
    }

    /// The runtime type of an interface type; `None` for a tuple and for
    /// an array of tuples. The result depends on the templates and the
    /// type alone, not on what the binder has remembered.
    pub fn to_runtime_type(&mut self, ty: &Type) -> (r: Result<Option<JsonRuntimeType>, BindError>)
        requires
            old(self).wf(),
        ensures
            final(self).wf(),
            final(self).types() == old(self).types(),
            bound(r, runtime_type_of(old(self).types(), *ty)),
        decreases *ty,
    {
        match ty {
            Type::Simple(element) => {
                if element.is_tuple() {
                    Ok(None)
                } else {
                    let name = element.to_string();
                    match self.search_basic_type(name.as_str()) {
                        Ok(runtime_type) => Ok(Some(runtime_type.clone())),
                        Err(e) => Err(e),
                    }
                }
            },
            Type::ArrayM(element) => self.to_array_m(element),
            Type::Array(element) => self.to_array(element),
            Type::BytesM(element) => match self.to_bytes_m(element.m) {
                Ok(runtime_type) => Ok(Some(runtime_type)),
                Err(e) => Err(e),
            },
            Type::FixedMN(element) => match self.to_fixed_m_n(element) {
                Ok(runtime_type) => Ok(Some(runtime_type)),
                Err(e) => Err(e),
            },
            Type::IntegerM(element) => match self.to_integer_m(element) {
                Ok(runtime_type) => Ok(Some(runtime_type)),
                Err(e) => Err(e),
            },
        }
    }
}

/// A text in which every placeholder was resolved: the text itself, or
/// the failure that names the text and the placeholders that are known,
/// if a placeholder marker `$` is left in it.
pub open spec fn resolved(text: Seq<char>, known: Seq<char>) -> Result<Seq<char>, BindErrorView> {
    if text.contains('$') {
        Err(BindErrorView::Mapping(TypeMappingErrorView::Serde(text, known)))
    } else {
        Ok(text)
    }
}

/// What `pick` gives of the runtime type of `t`, where the type has one.
pub open spec fn text_of(
    types: Map<Seq<char>, JsonRuntimeType>,
    t: Type,
    pick: spec_fn(RuntimeTypeView) -> Seq<char>,
    known: Seq<char>,
) -> Result<Option<Seq<char>>, BindErrorView> {
    match runtime_type_of(types, t) {
        Ok(Some(rt)) => match resolved(pick(rt), known) {
            Ok(text) => Ok(Some(text)),
            Err(e) => Err(e),
        },
        Ok(None) => Ok(None),
        Err(e) => Err(e),
    }
}

/// Whether the outcome `r` is the text that `expected` names.
pub open spec fn written(
    r: Result<Option<String>, BindError>,
    expected: Result<Option<Seq<char>>, BindErrorView>,
) -> bool {
    match (r, expected) {
        (Ok(Some(a)), Ok(Some(b))) => a@ == b,
        (Ok(None), Ok(None)) => true,
        (Err(e), Err(v)) => e@ == v,
        _ => false,
    }
}

/// Hands `text` on if no placeholder marker is left in it.
fn finish(text: String, known: &str) -> (r: Result<Option<String>, BindError>)
    ensures
        written(
            r,
            match resolved(text@, known@) {
                Ok(t) => Ok(Some(t)),
                Err(e) => Err(e),
            },
        ),
{
    let chars = crate::text::to_chars(text.as_str());
    if crate::text::contains_char(&chars, '$') {
        Err(BindError::Mapping(TypeMappingError::Serde(text, String::from_str(known))))
    } else {
        Ok(Some(text))
    }
}

impl JsonRuntimeBinder {
    /// The declaration of the type `ty` in the target language; `None`
    /// for a tuple and for an array of tuples. Fails if a placeholder
    /// is left in it.
    pub fn declare(&mut self, ty: &Type) -> (r: Result<Option<String>, BindError>)
        requires
            old(self).wf(),
        ensures
            final(self).wf(),
            final(self).types() == old(self).types(),
            written(
                r,
                text_of(
                    old(self).types(),
                    *ty,
                    |rt: RuntimeTypeView| rt.declare_type,
                    "$el $m $n"@,
                ),
            ),
    {
        match self.to_runtime_type(ty) {
            Ok(Some(runtime_type)) => finish(runtime_type.declare_type, "$el $m $n"),
            Ok(None) => Ok(None),
            Err(e) => Err(e),
        }
    }

    /// The call that encodes the variable `variable_name` of the type
    /// `ty`; `None` for a tuple and for an array of tuples. Fails if a
    /// placeholder is left in it.
    pub fn encode_call(&mut self, ty: &Type, variable_name: &str) -> (r: Result<
        Option<String>,
        BindError,
    >)
        requires
            old(self).wf(),
        ensures
            final(self).wf(),
            final(self).types() == old(self).types(),
            written(
                r,
                text_of(
                    old(self).types(),
                    *ty,
                    |rt: RuntimeTypeView| replace_all(rt.rlp_encode, "$var"@, variable_name@),
                    "$el $m $n $var"@,
                ),
            ),
    {
        match self.to_runtime_type(ty) {
            Ok(Some(runtime_type)) => finish(
                runtime_type.rlp_encode(variable_name),
                "$el $m $n $var",
            ),
            Ok(None) => Ok(None),
            Err(e) => Err(e),
        }
    }

    /// The call that decodes a value of the type `ty` from `source`;
    /// `None` for a tuple and for an array of tuples. Fails if a
    /// placeholder is left in it.
    pub fn decode_call(&mut self, ty: &Type, source: &str) -> (r: Result<Option<String>, BindError>)
        requires
            old(self).wf(),
        ensures
            final(self).wf(),
            final(self).types() == old(self).types(),
            written(
                r,
                text_of(
                    old(self).types(),
                    *ty,
                    |rt: RuntimeTypeView| replace_all(rt.rlp_decode, "$inputs"@, source@),
                    "$el $m $n $inputs"@,
                ),
            ),
    {
        match self.to_runtime_type(ty) {
            Ok(Some(runtime_type)) => finish(runtime_type.rlp_decode(source), "$el $m $n $inputs"),
            Ok(None) => Ok(None),
            Err(e) => Err(e),
        }
    }
}

/// Resolving a type twice against the same templates gives the same
/// runtime type, whatever either binder has remembered in between.
pub proof fn lemma_resolution_is_deterministic(
    first: JsonRuntimeBinder,
    second: JsonRuntimeBinder,
    ty: Type,
    a: Result<Option<JsonRuntimeType>, BindError>,
    b: Result<Option<JsonRuntimeType>, BindError>,
)
    requires
        first.types() == second.types(),
        bound(a, runtime_type_of(first.types(), ty)),
        bound(b, runtime_type_of(second.types(), ty)),
    ensures
        match (a, b) {
            (Ok(Some(x)), Ok(Some(y))) => x@ == y@,
            (Ok(None), Ok(None)) => true,
            (Err(x), Err(y)) => x@ == y@,
            _ => false,
        },
{
}

} // verus!
