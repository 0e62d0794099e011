//! The template engine: named templates with placeholders, resolved to
//! target-language strings.
use crate::error::{TypeMappingError, TypeMappingErrorView};
use crate::grammar::simple_name;
use crate::json::{FixedMN, IntegerM, SimpleType};
use crate::text::{
    contains_char, decimal, decimal_string, from_chars, join, join_strings, replace_all,
    replace_chars, texts, to_chars,
};
use vstd::hash_map::StringHashMap;
use vstd::prelude::*;
use vstd::string::*;

verus! {

/// Whether the outcome `r` is what the engine `expected`: the same text,
/// or a failure with the same content.
pub open spec fn mapped(
    r: Result<String, TypeMappingError>,
    expected: Result<Seq<char>, TypeMappingErrorView>,
) -> bool {
    match (r, expected) {
        (Ok(a), Ok(b)) => a@ == b,
        (Err(e), Err(v)) => e@ == v,
        _ => false,
    }
}

/// A placeholder and the text that takes its place.
pub struct Binding {
    pub placeholder: Seq<char>,
    pub value: Seq<char>,
}

/// The content of a list of placeholder arguments.
pub open spec fn bindings(args: Seq<(&str, &str)>) -> Seq<Binding> {
    Seq::new(args.len(), |i: int| Binding { placeholder: args[i].0@, value: args[i].1@ })
}

/// `template` after the first `n` of `args` were substituted, one after
/// the other, each for all occurrences of its placeholder.
pub open spec fn substitute(template: Seq<char>, args: Seq<Binding>, n: int) -> Seq<char>
    decreases n,
{
    if n <= 0 {
        template
    } else {
        replace_all(substitute(template, args, n - 1), args[n - 1].placeholder, args[n - 1].value)
    }
}

/// The placeholders of `args`, in order.
pub open spec fn placeholders(args: Seq<Binding>) -> Seq<Seq<char>> {
    Seq::new(args.len(), |i: int| args[i].placeholder)
}

/// What resolving the template `name` with `args` gives: the template
/// with every argument substituted, unless no template has that name or
/// a placeholder marker `$` is left in the result.
pub open spec fn resolve(templates: Map<Seq<char>, String>, name: Seq<char>, args: Seq<Binding>) -> Result<
    Seq<char>,
    TypeMappingErrorView,
> {
    if !templates.contains_key(name) {
        Err(TypeMappingErrorView::NotFound(name))
    } else {
        let text = substitute(templates[name]@, args, args.len() as int);
        if text.contains('$') {
            Err(TypeMappingErrorView::Serde(text, join(placeholders(args), ' ')))
        } else {
            Ok(text)
        }
    }
}

/// A resolver from interface types to target-language type strings.
pub trait TypeMapping {
    /// What `simple` gives.
    spec fn simple_spec(&self, t: SimpleType) -> Result<Seq<char>, TypeMappingErrorView>;

    /// What `bytes_m` gives.
    spec fn bytes_m_spec(&self, m: usize) -> Result<Seq<char>, TypeMappingErrorView>;

    /// What `integer_m` gives.
    spec fn integer_m_spec(&self, t: IntegerM) -> Result<Seq<char>, TypeMappingErrorView>;

    /// What `fixed_m_n` gives.
    spec fn fixed_m_n_spec(&self, t: FixedMN) -> Result<Seq<char>, TypeMappingErrorView>;

    /// What `array_m` gives.
    spec fn array_m_spec(&self, element: Seq<char>, m: usize) -> Result<
        Seq<char>,
        TypeMappingErrorView,
    >;

    /// What `array` gives.
    spec fn array_spec(&self, element: Seq<char>) -> Result<Seq<char>, TypeMappingErrorView>;

    /// The target type of a simple type.
    fn simple(&self, t: &SimpleType) -> (r: Result<String, TypeMappingError>)
        ensures
            mapped(r, self.simple_spec(*t)),
    ;

    /// The target type of a binary value of `m` bytes.
    fn bytes_m(&self, m: usize) -> (r: Result<String, TypeMappingError>)
        ensures
            mapped(r, self.bytes_m_spec(m)),
    ;

    /// The target type of an integer.
    fn integer_m(&self, t: IntegerM) -> (r: Result<String, TypeMappingError>)
        ensures
            mapped(r, self.integer_m_spec(t)),
    ;

    /// The target type of a fixed-point number.
    fn fixed_m_n(&self, t: FixedMN) -> (r: Result<String, TypeMappingError>)
        ensures
            mapped(r, self.fixed_m_n_spec(t)),
    ;

    /// The target type of an array of `m` elements of the target type `element`.
    fn array_m(&self, element: &str, m: usize) -> (r: Result<String, TypeMappingError>)
        ensures
            mapped(r, self.array_m_spec(element@, m)),
    ;

    /// The target type of an array of elements of the target type `element`.
    fn array(&self, element: &str) -> (r: Result<String, TypeMappingError>)
        ensures
            mapped(r, self.array_spec(element@)),
    ;
}

/// A [`TypeMapping`] over a flat document of named templates.
pub struct SerdeTypeMapping {
    /// The templates, by name.
    types_mapping: StringHashMap<String>,
}

impl SerdeTypeMapping {
    /// The templates, by name.
    pub closed spec fn templates(&self) -> Map<Seq<char>, String> {
        self.types_mapping@
    }

    /// A mapping without templates.
    pub fn new() -> (r: Self)
        ensures
            r.templates() == Map::<Seq<char>, String>::empty(),
    {
        SerdeTypeMapping { types_mapping: StringHashMap::new() }
    }

    /// Sets the template `name`, in place of an earlier one of that name.
    pub fn insert(&mut self, name: &str, template: &str)
        ensures
            final(self).templates().dom() == old(self).templates().dom().insert(name@),
            final(self).templates()[name@]@ == template@,
            forall|k: Seq<char>|
                k != name@ && old(self).templates().contains_key(k) ==> final(self).templates()[k]
                    == old(self).templates()[k],
    {
        self.types_mapping.insert(String::from_str(name), String::from_str(template));
    }

    /// The template `name`, with each of `args` substituted for its
    /// placeholder in the order given. Fails when no template has that
    /// name, and when a `$` is left after substitution.
    pub fn get_mapping(&self, name: &str, args: &[(&str, &str)]) -> (r: Result<
        String,
        TypeMappingError,
    >)
        ensures
            mapped(r, resolve(self.templates(), name@, bindings(args@))),
    {
        let ghost all = bindings(args@);
        let template = match self.types_mapping.get(name) {
            Some(t) => t,
            None => {
                return Err(TypeMappingError::NotFound(String::from_str(name)));
            },
        };
        let mut text = to_chars(template.as_str());
        let mut names: Vec<String> = Vec::new();
        let mut i: usize = 0;
        while i < args.len()
            invariant
                i <= args.len(),
                all == bindings(args@),
                text@ == substitute(template@, all, i as int),
                names.len() == i,
                forall|j: int| 0 <= j < i ==> names@[j]@ == all[j].placeholder,
            decreases args.len() - i,
        {
            let (placeholder, value) = args[i];
            text = replace_chars(&text, &to_chars(placeholder), &to_chars(value));
            names.push(String::from_str(placeholder));
            i += 1;
        }
        let out = from_chars(&text, 0, text.len());
        assert(text@.subrange(0, text@.len() as int) =~= text@);
        if contains_char(&text, '$') {
            assert(texts(names@) =~= placeholders(all));
            Err(TypeMappingError::Serde(out, join_strings(&names, ' ')))
        } else {
            Ok(out)
        }
    }
}

/// One placeholder argument.
pub open spec fn bind(placeholder: Seq<char>, value: Seq<char>) -> Binding {
    Binding { placeholder, value }
}

impl TypeMapping for SerdeTypeMapping {
    /// The template named by the word of the simple type, as it stands.
    open spec fn simple_spec(&self, t: SimpleType) -> Result<Seq<char>, TypeMappingErrorView> {
        resolve(self.templates(), simple_name(t), Seq::empty())
    }

    /// The template `bytes_m` with the length for `$m`.
    open spec fn bytes_m_spec(&self, m: usize) -> Result<Seq<char>, TypeMappingErrorView> {
        resolve(self.templates(), "bytes_m"@, seq![bind("$m"@, decimal(m as nat))])
    }

    /// The template `int_m`, or `uint_m` for an unsigned type, with the
    /// bit width for `$m`.
    open spec fn integer_m_spec(&self, t: IntegerM) -> Result<Seq<char>, TypeMappingErrorView> {
        resolve(
            self.templates(),
            if t.signed {
                "int_m"@
            } else {
                "uint_m"@
            },
            seq![bind("$m"@, decimal(t.m as nat))],
        )
    }

    /// The template `fixed_m_n`, or `ufixed_m_n` for an unsigned type,
    /// with the bit width for `$m` and the fractional digits for `$n`.
    open spec fn fixed_m_n_spec(&self, t: FixedMN) -> Result<Seq<char>, TypeMappingErrorView> {
        resolve(
            self.templates(),
            if t.signed {
                "fixed_m_n"@
            } else {
                "ufixed_m_n"@
            },
            seq![bind("$m"@, decimal(t.m as nat)), bind("$n"@, decimal(t.n as nat))],
        )
    }

    /// The template `array_m` with the element for `$element` and the
    /// length for `$m`.
    open spec fn array_m_spec(&self, element: Seq<char>, m: usize) -> Result<
        Seq<char>,
        TypeMappingErrorView,
    > {
        resolve(
            self.templates(),
            "array_m"@,
            seq![bind("$element"@, element), bind("$m"@, decimal(m as nat))],
        )
    }

    /// The template `array` with the element for `$element`.
    open spec fn array_spec(&self, element: Seq<char>) -> Result<Seq<char>, TypeMappingErrorView> {
        resolve(self.templates(), "array"@, seq![bind("$element"@, element)])
    }

    fn simple(&self, t: &SimpleType) -> (r: Result<String, TypeMappingError>) {
        let name = t.to_string();
        let args: [(&str, &str); 0] = [];
        assert(bindings(args@) =~= Seq::<Binding>::empty());
        self.get_mapping(name.as_str(), args.as_slice())
    }

    fn bytes_m(&self, m: usize) -> (r: Result<String, TypeMappingError>) {
        let digits = decimal_string(m);
        let args = [("$m", digits.as_str())];
        assert(bindings(args@) =~= seq![bind("$m"@, decimal(m as nat))]);
        self.get_mapping("bytes_m", args.as_slice())
    }

    fn integer_m(&self, t: IntegerM) -> (r: Result<String, TypeMappingError>) {
        let digits = decimal_string(t.m);
        let args = [("$m", digits.as_str())];
        assert(bindings(args@) =~= seq![bind("$m"@, decimal(t.m as nat))]);
        if t.signed {
            self.get_mapping("int_m", args.as_slice())
        } else {
            self.get_mapping("uint_m", args.as_slice())
        }
    }

    fn fixed_m_n(&self, t: FixedMN) -> (r: Result<String, TypeMappingError>) {
        let m = decimal_string(t.m);
        let n = decimal_string(t.n);
        let args = [("$m", m.as_str()), ("$n", n.as_str())];
        assert(bindings(args@) =~= seq![
            bind("$m"@, decimal(t.m as nat)),
            bind("$n"@, decimal(t.n as nat)),
        ]);
        if t.signed {
            self.get_mapping("fixed_m_n", args.as_slice())
        } else {
            self.get_mapping("ufixed_m_n", args.as_slice())
        }
    }

    fn array_m(&self, element: &str, m: usize) -> (r: Result<String, TypeMappingError>) {
        let digits = decimal_string(m);
        let args = [("$element", element), ("$m", digits.as_str())];
        assert(bindings(args@) =~= seq![
            bind("$element"@, element@),
            bind("$m"@, decimal(m as nat)),
        ]);
        self.get_mapping("array_m", args.as_slice())
    }

    fn array(&self, element: &str) -> (r: Result<String, TypeMappingError>) {
        let args = [("$element", element)];
        assert(bindings(args@) =~= seq![bind("$element"@, element@)]);
        self.get_mapping("array", args.as_slice())
    }
}

} // verus!
