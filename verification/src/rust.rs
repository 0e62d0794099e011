//! Naming decisions of the generator for the target language Rust: the
//! identifiers under which contracts, parameters and tuples appear in
//! the generated code.
use crate::error::BindError;
use crate::generate::Contract;
use crate::json::{Parameter, StateMutability};
use crate::text::{decimal, decimal_string, from_chars, replace, replace_all, to_chars};
use vstd::prelude::*;
use vstd::string::*;

verus! {

/// The text `text` in snake case: its words in lower case, joined by
/// underscores.
pub uninterp spec fn snake_case(text: Seq<char>) -> Seq<char>;

/// The text `text` in upper camel case: its words capitalized, joined
/// without a separator.
pub uninterp spec fn upper_camel_case(text: Seq<char>) -> Seq<char>;

/// `heck::ToSnakeCase::to_snake_case` on a string slice. The result is
/// the snake case form of the text, a function of the text alone.
#[verifier::external_body]
pub(crate) fn to_snake_case(text: &str) -> (r: String)
    ensures
        r@ == snake_case(text@),
{
    heck::ToSnakeCase::to_snake_case(text)
}

/// `heck::ToUpperCamelCase::to_upper_camel_case` on a string slice. The
/// result is the upper camel case form of the text, a function of the
/// text alone.
#[verifier::external_body]
pub(crate) fn to_upper_camel_case(text: &str) -> (r: String)
    ensures
        r@ == upper_camel_case(text@),
{
    heck::ToUpperCamelCase::to_upper_camel_case(text)
}

/// The name of the variable that holds parameter number `index`: the
/// parameter's name in snake case, or `p` and the index for a parameter
/// without a name.
pub open spec fn variable_name_of(name: Seq<char>, index: nat) -> Seq<char> {
    if name.len() == 0 {
        seq!['p'] + decimal(index)
    } else {
        snake_case(name)
    }
}

/// The name of the variable that holds parameter number `index`.
pub fn variable_name(parameter: &Parameter, index: usize) -> (r: String)
    ensures
        r@ == variable_name_of(parameter.name@, index as nat),
{
    if parameter.name.as_str().is_empty() {
        let mut r = String::from_str("p");
        proof {
            reveal_strlit("p");
            assert("p"@ =~= seq!['p']);
        }
        r.append(decimal_string(index).as_str());
        r
    } else {
        to_snake_case(parameter.name.as_str())
    }
}

/// The name of the type parameter that stands for parameter number
/// `index`: `P` and the index.
pub fn generic_name(index: usize) -> (r: String)
    ensures
        r@ == seq!['P'] + decimal(index as nat),
{
    let mut r = String::from_str("P");
    proof {
        reveal_strlit("P");
        assert("P"@ =~= seq!['P']);
    }
    r.append(decimal_string(index).as_str());
    r
}

/// The place of field number `index` of the tuple at `path`: the path,
/// a dot, and the index.
pub fn field_path(path: &str, index: usize) -> (r: String)
    ensures
        r@ == path@ + seq!['.'] + decimal(index as nat),
{
    let mut r = String::from_str(path);
    r.append(".");
    proof {
        reveal_strlit(".");
        assert("."@ =~= seq!['.']);
    }
    r.append(decimal_string(index).as_str());
    r
}

/// The identifier of the type that stands for the contract
/// `contract_name`: the name in upper camel case.
pub fn contract_ident(contract_name: &str) -> (r: String)
    ensures
        r@ == upper_camel_case(contract_name@),
{
    to_upper_camel_case(contract_name)
}

/// The identifier of the module of the contract whose type is
/// `contract_ident`: the identifier in snake case.
pub fn module_ident(contract_ident: &str) -> (r: String)
    ensures
        r@ == snake_case(contract_ident@),
{
    to_snake_case(contract_ident)
}

/// The identifier of the type that stands for the event `event_name`
/// of the contract `contract_name`: both names in upper camel case, one
/// after the other.
pub fn event_ident(contract_name: &str, event_name: &str) -> (r: String)
    ensures
        r@ == upper_camel_case(contract_name@) + upper_camel_case(event_name@),
{
    let mut r = to_upper_camel_case(contract_name);
    r.append(to_upper_camel_case(event_name).as_str());
    r
}

/// The path of the type that stands for the tuple `name` of the
/// contract whose type is `contract_ident`. A name that begins with
/// `struct ` is the name of a structure in the contract's source: the
/// path is the contract and that name without its dots. Another name
/// gives the contract, `Tuple`, and the name.
pub open spec fn tuple_path_of(contract_ident: Seq<char>, name: Seq<char>) -> Seq<char> {
    if "struct "@.is_prefix_of(name) {
        contract_ident + replace_all(name.skip("struct "@.len() as int), seq!['.'], Seq::empty())
    } else {
        contract_ident + "Tuple"@ + name
    }
}

/// The path of the type that stands for the tuple `name`.
pub fn tuple_path(contract_ident: &str, name: &str) -> (r: String)
    ensures
        r@ == tuple_path_of(contract_ident@, name@),
{
    let word = to_chars("struct ");
    let chars = to_chars(name);
    let mut r = String::from_str(contract_ident);
    if crate::text::matches_at(&chars, &word, 0) {
        assert(chars@.subrange(0, word@.len() as int) =~= chars@.take(word@.len() as int));
        let rest = from_chars(&chars, word.len(), chars.len());
        assert(chars@.subrange(word@.len() as int, chars@.len() as int) =~= name@.skip(
            word@.len() as int,
        ));
        proof {
            reveal_strlit(".");
            reveal_strlit("");
            assert("."@ =~= seq!['.']);
            assert(""@ =~= Seq::<char>::empty());
        }
        r.append(replace(rest.as_str(), ".", "").as_str());
        r
    } else {
        proof {
            if word@.len() <= chars@.len() {
                assert(chars@.subrange(0, word@.len() as int) =~= chars@.take(word@.len() as int));
            }
        }
        r.append("Tuple");
        r.append(name);
        r
    }
}

/// Whether a call of a function with this mutability is sent as a
/// transaction: a function that only reads is called without one.
pub fn sends_transaction(mutability: StateMutability) -> (r: bool)
    ensures
        r == !(mutability == StateMutability::Pure || mutability == StateMutability::View),
{
    match mutability {
        StateMutability::Pure | StateMutability::View => false,
        _ => true,
    }
}

/// The matches of the regular expression `pattern` in `text`, leftmost
/// first and never overlapping, in their order; `None` for a pattern
/// that is no regular expression.
pub uninterp spec fn regex_matches(pattern: Seq<char>, text: Seq<char>) -> Option<Seq<Seq<char>>>;

/// `regex::Regex::new` and `regex::Regex::find_iter`: the texts of all
/// matches of `pattern` in `text`, or `None` where the pattern does not
/// compile. The result is a function of the pattern and the text alone.
#[verifier::external_body]
pub(crate) fn find_all(pattern: &str, text: &str) -> (r: Option<Vec<String>>)
    ensures
        match r {
            Some(found) => regex_matches(pattern@, text@) == Some(crate::text::texts(found@)),
            None => regex_matches(pattern@, text@) is None,
        },
{
    match regex::Regex::new(pattern) {
        Ok(re) => Some(re.find_iter(text).map(|m| m.as_str().to_string()).collect()),
        Err(_) => None,
    }
}

/// `text` after each of the first `n` of `groups`, one after the other,
/// got `::` put before all its occurrences.
pub open spec fn with_turbofish(text: Seq<char>, groups: Seq<Seq<char>>, n: int) -> Seq<char>
    decreases n,
{
    if n <= 0 {
        text
    } else {
        replace_all(
            with_turbofish(text, groups, n - 1),
            groups[n - 1],
            seq![':', ':'] + groups[n - 1],
        )
    }
}

/// Puts `::` before all occurrences of each of `groups` in `text`, one
/// group after the other.
pub fn insert_turbofish(text: &str, groups: &Vec<String>) -> (r: String)
    ensures
        r@ == with_turbofish(text@, crate::text::texts(groups@), groups@.len() as int),
{
    let ghost all = crate::text::texts(groups@);
    let mut current = String::from_str(text);
    let mut i: usize = 0;
    while i < groups.len()
        invariant
            i <= groups.len(),
            all == crate::text::texts(groups@),
            current@ == with_turbofish(text@, all, i as int),
        decreases groups.len() - i,
    {
        let mut to = String::from_str("::");
        proof {
            reveal_strlit("::");
            assert("::"@ =~= seq![':', ':']);
        }
        to.append(groups[i].as_str());
        current = replace(current.as_str(), groups[i].as_str(), to.as_str());
        i += 1;
    }
    current
}

/// The type `mapping_type` as an expression path: `::` is put before
/// each group of generic arguments, that is each match of `<.+>`.
pub fn turbofish(mapping_type: &str) -> (r: String)
    ensures
        r@ == match regex_matches("<.+>"@, mapping_type@) {
            Some(groups) => with_turbofish(mapping_type@, groups, groups.len() as int),
            None => mapping_type@,
        },
{
    match find_all("<.+>", mapping_type) {
        Some(groups) => insert_turbofish(mapping_type, &groups),
        None => String::from_str(mapping_type),
    }
}

/// Formatting of generated Rust code.
pub trait RustPretty {
    /// Formats the generated code in place.
    fn pretty(&mut self) -> Result<(), BindError>;
}

impl RustPretty for Contract {
    /// The fragments are kept as the generator wrote them.
    fn pretty(&mut self) -> (r: Result<(), BindError>)
        ensures
            r is Ok,
            *final(self) == *old(self),
    {
        Ok(())
    }
}

} // verus!
