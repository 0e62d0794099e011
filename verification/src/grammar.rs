//! The grammar of type descriptors.
//!
//! A descriptor is matched against the grammars in a fixed order and the
//! first grammar that matches its shape decides: fixed-length array
//! `element[N]`, dynamic array `element[]`, fixed-point `(u)fixed<M>x<N>`,
//! integer `(u)int<M>`, fixed bytes `bytes<M>`, and last the bare simple
//! names. A number in a descriptor is a numeral: one to three digits
//! without a superfluous leading zero.
use crate::error::{AbiError, AbiErrorView};
use crate::json::{Array, ArrayM, BytesM, FixedMN, IntegerM, SimpleType, Type, valid_bits};
use crate::text::{
    all_digits, decimal, decimal_string, decimal_value, from_chars, is_digit, is_numeral,
    lemma_digits_bound, lemma_numeral_bound, push_char, to_chars,
};
use vstd::prelude::*;
use vstd::string::*;

verus! {

/// Whether `s` begins with `p`.
pub open spec fn starts_with(s: Seq<char>, p: Seq<char>) -> bool {
    p.len() <= s.len() && s.take(p.len() as int) == p
}

/// The rule on bit widths, as reported with a rejected descriptor.
pub open spec fn bits_rule() -> Seq<char> {
    "M bits must meet the condition 8 <= M <= 256, M % 8 == 0"@
}

/// The rule on fractional digits, as reported with a rejected descriptor.
pub open spec fn digits_rule() -> Seq<char> {
    "fractional digits N must meet the condition 0 <= N <= 80"@
}

/// The rule on byte lengths, as reported with a rejected descriptor.
pub open spec fn bytes_rule() -> Seq<char> {
    "M bytes must meet the condition 1 <= M <= 32"@
}

/// The shape of a fixed-point descriptor, as reported when it is not met.
pub open spec fn fixed_shape() -> Seq<char> {
    "{u}fixed<M>x<N>: fixed-point decimal number of M bits, 8 <= M <= 256, M % 8 == 0, and 0 <= N <= 80"@
}

/// The shape of an integer descriptor, as reported when it is not met.
pub open spec fn integer_shape() -> Seq<char> {
    "{u}int<M>: integer type of M bits, 8 <= M <= 256, M % 8 == 0"@
}

/// The shape of a fixed-bytes descriptor, as reported when it is not met.
pub open spec fn bytes_shape() -> Seq<char> {
    "bytes<M>: binary type of M bytes, 1 <= M <= 32"@
}

/// The shape of a fixed-length array descriptor, as reported when it is not met.
pub open spec fn array_m_shape() -> Seq<char> {
    "<type>[M]: a fixed-length array of M elements, M >= 0, of the given type"@
}

/// The shape of a dynamic array descriptor, as reported when it is not met.
pub open spec fn array_shape() -> Seq<char> {
    "<type>[]: a variable-length array of elements of the given type."@
}

/// The word that names a simple type in a descriptor.
pub open spec fn simple_name(k: SimpleType) -> Seq<char> {
    match k {
        SimpleType::Address => "address"@,
        SimpleType::Uint => "uint"@,
        SimpleType::Int => "int"@,
        SimpleType::Bool => "bool"@,
        SimpleType::Fixed => "fixed"@,
        SimpleType::Ufixed => "ufixed"@,
        SimpleType::Function => "function"@,
        SimpleType::Bytes => "bytes"@,
        SimpleType::String => "string"@,
        SimpleType::Tuple => "tuple"@,
    }
}

/// The simple type that the word `s` names, if any.
pub open spec fn simple_from_name(s: Seq<char>) -> Option<SimpleType> {
    if s == "address"@ {
        Some(SimpleType::Address)
    } else if s == "uint"@ {
        Some(SimpleType::Uint)
    } else if s == "int"@ {
        Some(SimpleType::Int)
    } else if s == "bool"@ {
        Some(SimpleType::Bool)
    } else if s == "fixed"@ {
        Some(SimpleType::Fixed)
    } else if s == "ufixed"@ {
        Some(SimpleType::Ufixed)
    } else if s == "function"@ {
        Some(SimpleType::Function)
    } else if s == "bytes"@ {
        Some(SimpleType::Bytes)
    } else if s == "string"@ {
        Some(SimpleType::String)
    } else if s == "tuple"@ {
        Some(SimpleType::Tuple)
    } else {
        None
    }
}

/// Whether `s` ends with `[`, a numeral of `k` digits, and `]`.
pub open spec fn has_length_suffix(s: Seq<char>, k: int) -> bool {
    &&& s.len() >= k + 2
    &&& s[s.len() - 1] == ']'
    &&& s[s.len() - k - 2] == '['
    &&& is_numeral(s.subrange(s.len() - k - 1, s.len() - 1))
}

/// The number of digits in the length that `s` ends with, or 0 when `s`
/// does not have the shape `element[N]`.
pub open spec fn length_digits(s: Seq<char>) -> int {
    if has_length_suffix(s, 1) {
        1
    } else if has_length_suffix(s, 2) {
        2
    } else if has_length_suffix(s, 3) {
        3
    } else {
        0
    }
}

/// Whether `s` has the shape `element[]`.
pub open spec fn is_dynamic_array(s: Seq<char>) -> bool {
    s.len() >= 2 && s[s.len() - 2] == '[' && s[s.len() - 1] == ']'
}

/// Whether `rest` is a numeral, an `x` at index `i`, and a numeral.
pub open spec fn splits_at(rest: Seq<char>, i: int) -> bool {
    &&& 0 < i < rest.len()
    &&& rest[i] == 'x'
    &&& is_numeral(rest.take(i))
    &&& is_numeral(rest.skip(i + 1))
}

/// The index of the `x` between the two numerals of `rest`, or 0 when
/// `rest` does not have the shape `<M>x<N>`.
pub open spec fn split_index(rest: Seq<char>) -> int {
    if splits_at(rest, 1) {
        1
    } else if splits_at(rest, 2) {
        2
    } else if splits_at(rest, 3) {
        3
    } else {
        0
    }
}

/// The part of a fixed-point descriptor after its keyword, with the sign
/// that the keyword gives; `None` when `s` begins with neither keyword.
pub open spec fn fixed_body(s: Seq<char>) -> Option<(bool, Seq<char>)> {
    if starts_with(s, "ufixed"@) {
        Some((false, s.skip("ufixed"@.len() as int)))
    } else if starts_with(s, "fixed"@) {
        Some((true, s.skip("fixed"@.len() as int)))
    } else {
        None
    }
}

/// The sign and the two numbers of `s`, when `s` has the shape of a
/// fixed-point descriptor.
pub open spec fn fixed_parts(s: Seq<char>) -> Option<(bool, nat, nat)> {
    match fixed_body(s) {
        Some((signed, rest)) => {
            let i = split_index(rest);
            if i > 0 {
                Some((signed, decimal_value(rest.take(i)), decimal_value(rest.skip(i + 1))))
            } else {
                None
            }
        },
        None => None,
    }
}

/// The sign and the number of `s`, when `s` has the shape of an integer
/// descriptor.
pub open spec fn integer_parts(s: Seq<char>) -> Option<(bool, nat)> {
    if starts_with(s, "uint"@) && is_numeral(s.skip("uint"@.len() as int)) {
        Some((false, decimal_value(s.skip("uint"@.len() as int))))
    } else if starts_with(s, "int"@) && is_numeral(s.skip("int"@.len() as int)) {
        Some((true, decimal_value(s.skip("int"@.len() as int))))
    } else {
        None
    }
}

/// The number of `s`, when `s` has the shape of a fixed-bytes descriptor.
pub open spec fn bytes_parts(s: Seq<char>) -> Option<nat> {
    if starts_with(s, "bytes"@) && is_numeral(s.skip("bytes"@.len() as int)) {
        Some(decimal_value(s.skip("bytes"@.len() as int)))
    } else {
        None
    }
}

/// What reading `s` as a fixed-point descriptor gives.
pub open spec fn parse_fixed(s: Seq<char>) -> Result<FixedMN, AbiErrorView> {
    match fixed_parts(s) {
        Some((signed, m, n)) => {
            if !valid_bits(m as int) {
                Err(AbiErrorView::FixedMN(s, bits_rule()))
            } else if n > 80 {
                Err(AbiErrorView::FixedMN(s, digits_rule()))
            } else {
                Ok(FixedMN { m: m as usize, n: n as usize, signed })
            }
        },
        None => Err(AbiErrorView::FixedMN(s, fixed_shape())),
    }
}

/// What reading `s` as an integer descriptor gives.
pub open spec fn parse_integer(s: Seq<char>) -> Result<IntegerM, AbiErrorView> {
    match integer_parts(s) {
        Some((signed, m)) => {
            if !valid_bits(m as int) {
                Err(AbiErrorView::IntegerM(s, bits_rule()))
            } else {
                Ok(IntegerM { signed, m: m as usize })
            }
        },
        None => Err(AbiErrorView::IntegerM(s, integer_shape())),
    }
}

/// What reading `s` as a fixed-bytes descriptor gives.
pub open spec fn parse_bytes(s: Seq<char>) -> Result<BytesM, AbiErrorView> {
    match bytes_parts(s) {
        Some(m) => {
            if !(1 <= m <= 32) {
                Err(AbiErrorView::BytesM(s, bytes_rule()))
            } else {
                Ok(BytesM { m: m as usize })
            }
        },
        None => Err(AbiErrorView::BytesM(s, bytes_shape())),
    }
}

/// What reading `s` as a descriptor without array suffix gives.
pub open spec fn parse_leaf(s: Seq<char>) -> Result<Type, AbiErrorView> {
    if fixed_parts(s) is Some {
        match parse_fixed(s) {
            Ok(f) => Ok(Type::FixedMN(f)),
            Err(e) => Err(e),
        }
    } else if integer_parts(s) is Some {
        match parse_integer(s) {
            Ok(i) => Ok(Type::IntegerM(i)),
            Err(e) => Err(e),
        }
    } else if bytes_parts(s) is Some {
        match parse_bytes(s) {
            Ok(b) => Ok(Type::BytesM(b)),
            Err(e) => Err(e),
        }
    } else {
        match simple_from_name(s) {
            Some(k) => Ok(Type::Simple(k)),
            None => Err(AbiErrorView::UnknownType(s)),
        }
    }
}

/// What reading `s` as a type descriptor gives: the type, or the failure
/// with the descriptor, or the element of it, that is at fault.
pub open spec fn parse_type(s: Seq<char>) -> Result<Type, AbiErrorView>
    decreases s.len(),
{
    let k = length_digits(s);
    if k > 0 {
        match parse_type(s.take(s.len() - k - 2)) {
            Ok(element) => Ok(
                Type::ArrayM(
                    Box::new(
                        ArrayM {
                            element,
                            m: decimal_value(s.subrange(s.len() - k - 1, s.len() - 1)) as usize,
                        },
                    ),
                ),
            ),
            Err(e) => Err(e),
        }
    } else if is_dynamic_array(s) {
        match parse_type(s.take(s.len() - 2)) {
            Ok(element) => Ok(Type::Array(Box::new(Array { element }))),
            Err(e) => Err(e),
        }
    } else {
        parse_leaf(s)
    }
}

/// What reading `s` as a fixed-length array descriptor gives.
pub open spec fn parse_array_m(s: Seq<char>) -> Result<ArrayM, AbiErrorView> {
    let k = length_digits(s);
    if k > 0 {
        match parse_type(s.take(s.len() - k - 2)) {
            Ok(element) => Ok(
                ArrayM {
                    element,
                    m: decimal_value(s.subrange(s.len() - k - 1, s.len() - 1)) as usize,
                },
            ),
            Err(e) => Err(e),
        }
    } else {
        Err(AbiErrorView::ArrayM(s, array_m_shape()))
    }
}

/// What reading `s` as a dynamic array descriptor gives.
pub open spec fn parse_array(s: Seq<char>) -> Result<Array, AbiErrorView> {
    if is_dynamic_array(s) {
        match parse_type(s.take(s.len() - 2)) {
            Ok(element) => Ok(Array { element }),
            Err(e) => Err(e),
        }
    } else {
        Err(AbiErrorView::Array(s, array_shape()))
    }
}

impl FixedMN {
    /// The descriptor of this type.
    pub open spec fn descriptor(&self) -> Seq<char> {
        (if self.signed {
            "fixed"@
        } else {
            "ufixed"@
        }) + decimal(self.m as nat) + seq!['x'] + decimal(self.n as nat)
    }
}

impl IntegerM {
    /// The descriptor of this type.
    pub open spec fn descriptor(&self) -> Seq<char> {
        (if self.signed {
            "int"@
        } else {
            "uint"@
        }) + decimal(self.m as nat)
    }
}

impl BytesM {
    /// The descriptor of this type.
    pub open spec fn descriptor(&self) -> Seq<char> {
        "bytes"@ + decimal(self.m as nat)
    }
}

impl Type {
    /// The descriptor of this type.
    pub open spec fn descriptor(&self) -> Seq<char>
        decreases *self,
    {
        match *self {
            Type::Simple(k) => simple_name(k),
            Type::BytesM(b) => b.descriptor(),
            Type::IntegerM(i) => i.descriptor(),
            Type::FixedMN(f) => f.descriptor(),
            Type::ArrayM(a) => a.element.descriptor() + seq!['['] + decimal(a.m as nat) + seq![']'],
            Type::Array(a) => a.element.descriptor() + seq!['[', ']'],
        }
    }
}

impl ArrayM {
    /// The descriptor of this type.
    pub open spec fn descriptor(&self) -> Seq<char> {
        self.element.descriptor() + seq!['['] + decimal(self.m as nat) + seq![']']
    }
}

impl Array {
    /// The descriptor of this type.
    pub open spec fn descriptor(&self) -> Seq<char> {
        self.element.descriptor() + seq!['[', ']']
    }
}

/// Whether the outcome `r` is what the grammar `expected`: the same
/// value, or a failure with the same content.
pub open spec fn outcome_is<T>(r: Result<T, AbiError>, expected: Result<T, AbiErrorView>) -> bool {
    match (r, expected) {
        (Ok(a), Ok(b)) => a == b,
        (Err(e), Err(v)) => e@ == v,
        _ => false,
    }
}

/// Reads `chars[from..to]` as a numeral.
fn read_numeral(chars: &Vec<char>, from: usize, to: usize) -> (r: Option<usize>)
    requires
        from <= to <= chars.len(),
    ensures
        r is Some <==> is_numeral(chars@.subrange(from as int, to as int)),
        r is Some ==> r->0 == decimal_value(chars@.subrange(from as int, to as int)),
        r is Some ==> r->0 < 1000,
{
    let ghost text = chars@.subrange(from as int, to as int);
    if to - from == 0 || to - from > 3 {
        return None;
    }
    if to - from > 1 && chars[from] == '0' {
        assert(text[0] == '0');
        return None;
    }
    let mut value: usize = 0;
    let mut i: usize = from;
    while i < to
        invariant
            from <= i <= to <= chars.len(),
            to - from <= 3,
            text == chars@.subrange(from as int, to as int),
            all_digits(text.take(i - from)),
            value == decimal_value(text.take(i - from)),
            value < 1000,
        decreases to - i,
    {
        let c = chars[i];
        if !('0' <= c && c <= '9') {
            assert(text[i - from] == c);
            return None;
        }
        let ghost next = text.take(i - from + 1);
        proof {
            assert(next.drop_last() =~= text.take(i - from));
            assert(next.last() == c);
            assert(all_digits(next)) by {
                assert forall|j: int| 0 <= j < next.len() implies is_digit(#[trigger] next[j]) by {
                    if j < i - from {
                        assert(next[j] == text.take(i - from)[j]);
                    }
                }
            }
            lemma_digits_bound(next);
        }
        value = value * 10 + (c as u32 - 48u32) as usize;
        i += 1;
    }
    assert(text.take(to - from) =~= text);
    Some(value)
}

/// Whether the first `len` characters of `chars` begin with `word`.
fn has_prefix(chars: &Vec<char>, len: usize, word: &Vec<char>) -> (r: bool)
    requires
        len <= chars.len(),
    ensures
        r == starts_with(chars@.take(len as int), word@),
{
    let ghost s = chars@.take(len as int);
    if word.len() > len {
        return false;
    }
    let mut i: usize = 0;
    while i < word.len()
        invariant
            i <= word.len() <= len <= chars.len(),
            s == chars@.take(len as int),
            forall|j: int| 0 <= j < i ==> s[j] == word@[j],
        decreases word.len() - i,
    {
        if chars[i] != word[i] {
            assert(s.take(word@.len() as int)[i as int] != word@[i as int]);
            return false;
        }
        i += 1;
    }
    assert(s.take(word@.len() as int) =~= word@);
    true
}

/// Whether the first `len` characters of `chars` are exactly `word`.
fn is_word(chars: &Vec<char>, len: usize, word: &str) -> (r: bool)
    requires
        len <= chars.len(),
    ensures
        r == (chars@.take(len as int) == word@),
{
    let w = to_chars(word);
    let r = w.len() == len && has_prefix(chars, len, &w);
    proof {
        let s = chars@.take(len as int);
        if w.len() == len {
            assert(s.take(len as int) =~= s);
        }
    }
    r
}

/// The simple type that the first `len` characters of `chars` name.
fn read_simple(chars: &Vec<char>, len: usize) -> (r: Option<SimpleType>)
    requires
        len <= chars.len(),
    ensures
        r == simple_from_name(chars@.take(len as int)),
{
    if is_word(chars, len, "address") {
        Some(SimpleType::Address)
    } else if is_word(chars, len, "uint") {
        Some(SimpleType::Uint)
    } else if is_word(chars, len, "int") {
        Some(SimpleType::Int)
    } else if is_word(chars, len, "bool") {
        Some(SimpleType::Bool)
    } else if is_word(chars, len, "fixed") {
        Some(SimpleType::Fixed)
    } else if is_word(chars, len, "ufixed") {
        Some(SimpleType::Ufixed)
    } else if is_word(chars, len, "function") {
        Some(SimpleType::Function)
    } else if is_word(chars, len, "bytes") {
        Some(SimpleType::Bytes)
    } else if is_word(chars, len, "string") {
        Some(SimpleType::String)
    } else if is_word(chars, len, "tuple") {
        Some(SimpleType::Tuple)
    } else {
        None
    }
}

/// The number that follows `word` in the first `len` characters of
/// `chars`, when they are `word` and a numeral.
fn read_after(chars: &Vec<char>, len: usize, word: &str) -> (r: Option<usize>)
    requires
        len <= chars.len(),
    ensures
        r is Some <==> starts_with(chars@.take(len as int), word@) && is_numeral(
            chars@.take(len as int).skip(word@.len() as int),
        ),
        r is Some ==> r->0 == decimal_value(chars@.take(len as int).skip(word@.len() as int)),
        r is Some ==> r->0 < 1000,
{
    let w = to_chars(word);
    if !has_prefix(chars, len, &w) {
        return None;
    }
    assert(chars@.take(len as int).skip(w@.len() as int) =~= chars@.subrange(
        w@.len() as int,
        len as int,
    ));
    read_numeral(chars, w.len(), len)
}

/// The two numbers of `chars[from..len]`, when it is a numeral, an `x`
/// and a numeral.
fn read_split(chars: &Vec<char>, from: usize, len: usize) -> (r: Option<(usize, usize)>)
    requires
        from <= len <= chars.len(),
    ensures
        ({
            let rest = chars@.subrange(from as int, len as int);
            let i = split_index(rest);
            &&& r is Some <==> i > 0
            &&& r is Some ==> (r->0).0 == decimal_value(rest.take(i)) && (r->0).1 == decimal_value(
                rest.skip(i + 1),
            )
            &&& r is Some ==> (r->0).0 < 1000 && (r->0).1 < 1000
        }),
{
    let ghost rest = chars@.subrange(from as int, len as int);
    let mut i: usize = 1;
    while i <= 3
        invariant
            1 <= i <= 4,
            from <= len <= chars.len(),
            rest == chars@.subrange(from as int, len as int),
            forall|j: int| 1 <= j < i ==> !splits_at(rest, j),
        decreases 4 - i,
    {
        if i < len - from && chars[from + i] == 'x' {
            assert(rest[i as int] == 'x');
            assert(rest.take(i as int) =~= chars@.subrange(from as int, from + i));
            assert(rest.skip(i + 1) =~= chars@.subrange(from + i + 1, len as int));
            let m = read_numeral(chars, from, from + i);
            let n = read_numeral(chars, from + i + 1, len);
            match (m, n) {
                (Some(m), Some(n)) => {
                    assert(splits_at(rest, i as int));
                    return Some((m, n));
                },
                _ => {},
            }
        }
        i += 1;
    }
    None
}

/// The sign and the two numbers of the first `len` characters of
/// `chars`, when they have the shape of a fixed-point descriptor.
fn read_fixed_parts(chars: &Vec<char>, len: usize) -> (r: Option<(bool, usize, usize)>)
    requires
        len <= chars.len(),
    ensures
        ({
            let parts = fixed_parts(chars@.take(len as int));
            &&& r is Some <==> parts is Some
            &&& r is Some ==> (r->0).0 == (parts->0).0 && (r->0).1 == (parts->0).1 && (r->0).2 == (parts->0).2
        }),
{
    let ghost s = chars@.take(len as int);
    let unsigned_word = to_chars("ufixed");
    let signed_word = to_chars("fixed");
    if has_prefix(chars, len, &unsigned_word) {
        assert(s.skip(unsigned_word@.len() as int) =~= chars@.subrange(
            unsigned_word@.len() as int,
            len as int,
        ));
        match read_split(chars, unsigned_word.len(), len) {
            Some((m, n)) => Some((false, m, n)),
            None => None,
        }
    } else if has_prefix(chars, len, &signed_word) {
        assert(s.skip(signed_word@.len() as int) =~= chars@.subrange(
            signed_word@.len() as int,
            len as int,
        ));
        match read_split(chars, signed_word.len(), len) {
            Some((m, n)) => Some((true, m, n)),
            None => None,
        }
    } else {
        None
    }
}

/// The sign and the number of the first `len` characters of `chars`,
/// when they have the shape of an integer descriptor.
fn read_integer_parts(chars: &Vec<char>, len: usize) -> (r: Option<(bool, usize)>)
    requires
        len <= chars.len(),
    ensures
        ({
            let parts = integer_parts(chars@.take(len as int));
            &&& r is Some <==> parts is Some
            &&& r is Some ==> (r->0).0 == (parts->0).0 && (r->0).1 == (parts->0).1
        }),
{
    match read_after(chars, len, "uint") {
        Some(m) => Some((false, m)),
        None => match read_after(chars, len, "int") {
            Some(m) => Some((true, m)),
            None => None,
        },
    }
}

/// Whether `m` is a legal bit width.
fn check_bits(m: usize) -> (r: bool)
    ensures
        r == valid_bits(m as int),
{
    8 <= m && m <= 256 && m % 8 == 0
}

/// Reads the first `len` characters of `chars` as a descriptor without
/// array suffix.
fn read_leaf(chars: &Vec<char>, len: usize) -> (r: Result<Type, AbiError>)
    requires
        len <= chars.len(),
    ensures
        outcome_is(r, parse_leaf(chars@.take(len as int))),
{
    let ghost s = chars@.take(len as int);
    assert(chars@.subrange(0, len as int) =~= s);
    if let Some((signed, m, n)) = read_fixed_parts(chars, len) {
        if !check_bits(m) {
            Err(
                AbiError::FixedMN(
                    from_chars(chars, 0, len),
                    String::from_str("M bits must meet the condition 8 <= M <= 256, M % 8 == 0"),
                ),
            )
        } else if n > 80 {
            Err(
                AbiError::FixedMN(
                    from_chars(chars, 0, len),
                    String::from_str("fractional digits N must meet the condition 0 <= N <= 80"),
                ),
            )
        } else {
            Ok(Type::FixedMN(FixedMN { m, n, signed }))
        }
    } else if let Some((signed, m)) = read_integer_parts(chars, len) {
        if !check_bits(m) {
            Err(
                AbiError::IntegerM(
                    from_chars(chars, 0, len),
                    String::from_str("M bits must meet the condition 8 <= M <= 256, M % 8 == 0"),
                ),
            )
        } else {
            Ok(Type::IntegerM(IntegerM { signed, m }))
        }
    } else if let Some(m) = read_after(chars, len, "bytes") {
        if !(1 <= m && m <= 32) {
            Err(AbiError::BytesM(from_chars(chars, 0, len), String::from_str("M bytes must meet the condition 1 <= M <= 32")))
        } else {
            Ok(Type::BytesM(BytesM { m }))
        }
    } else {
        match read_simple(chars, len) {
            Some(k) => Ok(Type::Simple(k)),
            None => Err(AbiError::UnknownType(from_chars(chars, 0, len))),
        }
    }
}

/// The number of digits in the length that the first `len` characters of
/// `chars` end with, and that length.
fn read_length_suffix(chars: &Vec<char>, len: usize) -> (r: Option<(usize, usize)>)
    requires
        len <= chars.len(),
    ensures
        ({
            let s = chars@.take(len as int);
            let k = length_digits(s);
            &&& r is Some <==> k > 0
            &&& r is Some ==> (r->0).0 == k && (r->0).1 == decimal_value(
                s.subrange(s.len() - k - 1, s.len() - 1),
            )
            &&& r is Some ==> (r->0).1 < 1000
        }),
{
    let ghost s = chars@.take(len as int);
    if len < 3 || chars[len - 1] != ']' {
        return None;
    }
    let mut k: usize = 1;
    while k <= 3
        invariant
            1 <= k <= 4,
            3 <= len <= chars.len(),
            s == chars@.take(len as int),
            s[s.len() - 1] == ']',
            forall|j: int| 1 <= j < k ==> !has_length_suffix(s, j),
        decreases 4 - k,
    {
        if k + 2 <= len && chars[len - k - 2] == '[' {
            assert(s.subrange(s.len() - k - 1, s.len() - 1) =~= chars@.subrange(
                len - k - 1,
                len - 1,
            ));
            if let Some(m) = read_numeral(chars, len - k - 1, len - 1) {
                assert(has_length_suffix(s, k as int));
                return Some((k, m));
            }
        }
        k += 1;
    }
    None
}

/// Reads the first `len` characters of `chars` as a type descriptor.
fn read_type(chars: &Vec<char>, len: usize) -> (r: Result<Type, AbiError>)
    requires
        len <= chars.len(),
    ensures
        outcome_is(r, parse_type(chars@.take(len as int))),
    decreases len,
{
    let ghost s = chars@.take(len as int);
    if let Some((k, m)) = read_length_suffix(chars, len) {
        assert(s.take(s.len() - k - 2) =~= chars@.take(len - k - 2));
        match read_type(chars, len - k - 2) {
            Ok(element) => Ok(Type::ArrayM(Box::new(ArrayM { element, m }))),
            Err(e) => Err(e),
        }
    } else if len >= 2 && chars[len - 2] == '[' && chars[len - 1] == ']' {
        assert(s.take(s.len() - 2) =~= chars@.take(len - 2));
        match read_type(chars, len - 2) {
            Ok(element) => Ok(Type::Array(Box::new(Array { element }))),
            Err(e) => Err(e),
        }
    } else {
        read_leaf(chars, len)
    }
}

impl Type {
    /// Reads a type descriptor. Succeeds exactly on the descriptors of
    /// the grammar whose numbers are in range, and otherwise reports the
    /// descriptor, or the array element, that is at fault.
    pub fn parse(s: &str) -> (r: Result<Type, AbiError>)
        ensures
            outcome_is(r, parse_type(s@)),
            r is Ok ==> r->Ok_0.wf() && r->Ok_0.descriptor() == s@,
    {
        let chars = to_chars(s);
        assert(chars@.take(chars@.len() as int) =~= s@);
        let r = read_type(&chars, chars.len());
        proof {
            if r is Ok {
                lemma_parse_round_trip(s@);
            }
        }
        r
    }
}

impl SimpleType {
    /// Reads the bare word of a simple type.
    pub fn parse(s: &str) -> (r: Option<SimpleType>)
        ensures
            r == simple_from_name(s@),
    {
        let chars = to_chars(s);
        assert(chars@.take(chars@.len() as int) =~= s@);
        read_simple(&chars, chars.len())
    }

    /// The word that names this type in a descriptor.
    pub fn to_string(&self) -> (s: String)
        ensures
            s@ == simple_name(*self),
    {
        match self {
            SimpleType::Address => String::from_str("address"),
            SimpleType::Uint => String::from_str("uint"),
            SimpleType::Int => String::from_str("int"),
            SimpleType::Bool => String::from_str("bool"),
            SimpleType::Fixed => String::from_str("fixed"),
            SimpleType::Ufixed => String::from_str("ufixed"),
            SimpleType::Function => String::from_str("function"),
            SimpleType::Bytes => String::from_str("bytes"),
            SimpleType::String => String::from_str("string"),
            SimpleType::Tuple => String::from_str("tuple"),
        }
    }
}

impl FixedMN {
    /// Reads a fixed-point descriptor: `fixed` or `ufixed`, the bit
    /// width, an `x`, and the number of fractional digits.
    pub fn parse(s: &str) -> (r: Result<FixedMN, AbiError>)
        ensures
            outcome_is(r, parse_fixed(s@)),
    {
        let chars = to_chars(s);
        assert(chars@.take(chars@.len() as int) =~= s@);
        match read_fixed_parts(&chars, chars.len()) {
            Some((signed, m, n)) => {
                if !check_bits(m) {
                    Err(
                        AbiError::FixedMN(
                            String::from_str(s),
                            String::from_str(
                                "M bits must meet the condition 8 <= M <= 256, M % 8 == 0",
                            ),
                        ),
                    )
                } else if n > 80 {
                    Err(
                        AbiError::FixedMN(
                            String::from_str(s),
                            String::from_str(
                                "fractional digits N must meet the condition 0 <= N <= 80",
                            ),
                        ),
                    )
                } else {
                    Ok(FixedMN { m, n, signed })
                }
            },
            None => Err(
                AbiError::FixedMN(
                    String::from_str(s),
                    String::from_str(
                        "{u}fixed<M>x<N>: fixed-point decimal number of M bits, 8 <= M <= 256, M % 8 == 0, and 0 <= N <= 80",
                    ),
                ),
            ),
        }
    }

    /// The descriptor of this type.
    pub fn to_string(&self) -> (s: String)
        ensures
            s@ == self.descriptor(),
    {
        let mut s = if self.signed {
            String::from_str("fixed")
        } else {
            String::from_str("ufixed")
        };
        s.append(decimal_string(self.m).as_str());
        push_char(&mut s, 'x');
        s.append(decimal_string(self.n).as_str());
        s
    }
}

impl IntegerM {
    /// Reads an integer descriptor: `int` or `uint` and the bit width.
    pub fn parse(s: &str) -> (r: Result<IntegerM, AbiError>)
        ensures
            outcome_is(r, parse_integer(s@)),
    {
        let chars = to_chars(s);
        assert(chars@.take(chars@.len() as int) =~= s@);
        match read_integer_parts(&chars, chars.len()) {
            Some((signed, m)) => {
                if !check_bits(m) {
                    Err(
                        AbiError::IntegerM(
                            String::from_str(s),
                            String::from_str(
                                "M bits must meet the condition 8 <= M <= 256, M % 8 == 0",
                            ),
                        ),
                    )
                } else {
                    Ok(IntegerM { signed, m })
                }
            },
            None => Err(
                AbiError::IntegerM(
                    String::from_str(s),
                    String::from_str(
                        "{u}int<M>: integer type of M bits, 8 <= M <= 256, M % 8 == 0",
                    ),
                ),
            ),
        }
    }

    /// The descriptor of this type.
    pub fn to_string(&self) -> (s: String)
        ensures
            s@ == self.descriptor(),
    {
        let mut s = if self.signed {
            String::from_str("int")
        } else {
            String::from_str("uint")
        };
        s.append(decimal_string(self.m).as_str());
        s
    }
}

impl BytesM {
    /// Reads a fixed-bytes descriptor: `bytes` and the length.
    pub fn parse(s: &str) -> (r: Result<BytesM, AbiError>)
        ensures
            outcome_is(r, parse_bytes(s@)),
    {
        let chars = to_chars(s);
        assert(chars@.take(chars@.len() as int) =~= s@);
        match read_after(&chars, chars.len(), "bytes") {
            Some(m) => {
                if !(1 <= m && m <= 32) {
                    Err(AbiError::BytesM(String::from_str(s), String::from_str("M bytes must meet the condition 1 <= M <= 32")))
                } else {
                    Ok(BytesM { m })
                }
            },
            None => Err(
                AbiError::BytesM(
                    String::from_str(s),
                    String::from_str("bytes<M>: binary type of M bytes, 1 <= M <= 32"),
                ),
            ),
        }
    }

    /// The descriptor of this type.
    pub fn to_string(&self) -> (s: String)
        ensures
            s@ == self.descriptor(),
    {
        let mut s = String::from_str("bytes");
        s.append(decimal_string(self.m).as_str());
        s
    }
}

impl ArrayM {
    /// Reads a fixed-length array descriptor: an element descriptor and
    /// the length in square brackets.
    pub fn parse(s: &str) -> (r: Result<ArrayM, AbiError>)
        ensures
            outcome_is(r, parse_array_m(s@)),
    {
        let chars = to_chars(s);
        let len = chars.len();
        assert(chars@.take(len as int) =~= s@);
        match read_length_suffix(&chars, len) {
            Some((k, m)) => {
                assert(s@.take(s@.len() - k - 2) =~= chars@.take(len - k - 2));
                match read_type(&chars, len - k - 2) {
                    Ok(element) => Ok(ArrayM { element, m }),
                    Err(e) => Err(e),
                }
            },
            None => Err(
                AbiError::ArrayM(
                    String::from_str(s),
                    String::from_str(
                        "<type>[M]: a fixed-length array of M elements, M >= 0, of the given type",
                    ),
                ),
            ),
        }
    }

    /// The descriptor of this type.
    pub fn to_string(&self) -> (s: String)
        ensures
            s@ == self.descriptor(),
    {
        let mut s = self.element.to_string();
        push_char(&mut s, '[');
        s.append(decimal_string(self.m).as_str());
        push_char(&mut s, ']');
        s
    }
}

impl Array {
    /// Reads a dynamic array descriptor: an element descriptor and `[]`.
    pub fn parse(s: &str) -> (r: Result<Array, AbiError>)
        ensures
            outcome_is(r, parse_array(s@)),
    {
        let chars = to_chars(s);
        let len = chars.len();
        assert(chars@.take(len as int) =~= s@);
        if len >= 2 && chars[len - 2] == '[' && chars[len - 1] == ']' {
            assert(s@.take(s@.len() - 2) =~= chars@.take(len - 2));
            match read_type(&chars, len - 2) {
                Ok(element) => Ok(Array { element }),
                Err(e) => Err(e),
            }
        } else {
            Err(
                AbiError::Array(
                    String::from_str(s),
                    String::from_str(
                        "<type>[]: a variable-length array of elements of the given type.",
                    ),
                ),
            )
        }
    }

    /// The descriptor of this type.
    pub fn to_string(&self) -> (s: String)
        ensures
            s@ == self.descriptor(),
    {
        let mut s = self.element.to_string();
        push_char(&mut s, '[');
        push_char(&mut s, ']');
        assert(s@ =~= self.element.descriptor() + seq!['[', ']']);
        s
    }
}

impl Type {
    /// The descriptor of this type.
    pub fn to_string(&self) -> (s: String)
        ensures
            s@ == self.descriptor(),
        decreases *self,
    {
        match self {
            Type::Simple(k) => k.to_string(),
            Type::BytesM(b) => b.to_string(),
            Type::IntegerM(i) => i.to_string(),
            Type::FixedMN(f) => f.to_string(),
            Type::ArrayM(a) => {
                let mut s = a.element.to_string();
                push_char(&mut s, '[');
                s.append(decimal_string(a.m).as_str());
                push_char(&mut s, ']');
                s
            },
            Type::Array(a) => {
                let mut s = a.element.to_string();
                push_char(&mut s, '[');
                push_char(&mut s, ']');
                assert(s@ =~= a.element.descriptor() + seq!['[', ']']);
                s
            },
        }
    }
}

/// A word and a numeral, put together again.
proof fn lemma_word_and_numeral(s: Seq<char>, word: Seq<char>)
    requires
        starts_with(s, word),
        is_numeral(s.skip(word.len() as int)),
    ensures
        word + decimal(decimal_value(s.skip(word.len() as int))) == s,
        decimal_value(s.skip(word.len() as int)) < 1000,
{
    lemma_numeral_bound(s.skip(word.len() as int));
    assert(s.take(word.len() as int) + s.skip(word.len() as int) =~= s);
}

/// Two numerals with an `x` between them, rendered anew, are the text
/// they were read from.
proof fn lemma_split_joins(rest: Seq<char>, i: int)
    requires
        splits_at(rest, i),
    ensures
        decimal(decimal_value(rest.take(i))) + seq!['x'] + decimal(
            decimal_value(rest.skip(i + 1)),
        ) == rest,
        decimal_value(rest.take(i)) < 1000,
        decimal_value(rest.skip(i + 1)) < 1000,
{
    lemma_numeral_bound(rest.take(i));
    lemma_numeral_bound(rest.skip(i + 1));
    assert(rest.take(i) + seq!['x'] + rest.skip(i + 1) =~= rest);
}

/// A text that begins with a word is that word and the rest.
proof fn lemma_word_and_rest(s: Seq<char>, word: Seq<char>)
    requires
        starts_with(s, word),
    ensures
        word + s.skip(word.len() as int) == s,
{
    assert(s.take(word.len() as int) + s.skip(word.len() as int) =~= s);
}

/// Round trip of the fixed-point descriptors.
proof fn lemma_fixed_leaf(s: Seq<char>)
    requires
        parse_fixed(s) is Ok,
    ensures
        parse_fixed(s)->Ok_0.descriptor() == s,
        parse_fixed(s)->Ok_0.wf(),
{
    let f = parse_fixed(s)->Ok_0;
    let body = fixed_body(s);
    assert(body is Some);
    let signed = (body->0).0;
    let rest = (body->0).1;
    let i = split_index(rest);
    assert(i > 0);
    assert(splits_at(rest, i));
    lemma_split_joins(rest, i);
    let word = if signed {
        "fixed"@
    } else {
        "ufixed"@
    };
    assert(starts_with(s, word) && rest == s.skip(word.len() as int));
    lemma_word_and_rest(s, word);
    let m = decimal(decimal_value(rest.take(i)));
    let n = decimal(decimal_value(rest.skip(i + 1)));
    assert(f.signed == signed && f.m == decimal_value(rest.take(i)) && f.n == decimal_value(
        rest.skip(i + 1),
    ));
    assert(f.descriptor() == word + m + seq!['x'] + n);
    assert(word + m + seq!['x'] + n =~= word + (m + seq!['x'] + n));
}

/// Round trip of the integer descriptors.
proof fn lemma_integer_leaf(s: Seq<char>)
    requires
        parse_integer(s) is Ok,
    ensures
        parse_integer(s)->Ok_0.descriptor() == s,
        parse_integer(s)->Ok_0.wf(),
{
    if starts_with(s, "uint"@) && is_numeral(s.skip("uint"@.len() as int)) {
        lemma_word_and_numeral(s, "uint"@);
    } else {
        lemma_word_and_numeral(s, "int"@);
    }
}

/// Round trip of the fixed-bytes descriptors.
proof fn lemma_bytes_leaf(s: Seq<char>)
    requires
        parse_bytes(s) is Ok,
    ensures
        parse_bytes(s)->Ok_0.descriptor() == s,
        parse_bytes(s)->Ok_0.wf(),
{
    lemma_word_and_numeral(s, "bytes"@);
}

/// Round trip of the descriptors without array suffix.
proof fn lemma_leaf_round_trip(s: Seq<char>)
    requires
        parse_leaf(s) is Ok,
    ensures
        parse_leaf(s)->Ok_0.descriptor() == s,
        parse_leaf(s)->Ok_0.wf(),
{
    if fixed_parts(s) is Some {
        lemma_fixed_leaf(s);
    } else if integer_parts(s) is Some {
        lemma_integer_leaf(s);
    } else if bytes_parts(s) is Some {
        lemma_bytes_leaf(s);
    } else {
    }
}

/// A descriptor with the shape `element[N]` is its element, and its
/// length rendered anew in brackets.
proof fn lemma_length_suffix_joins(s: Seq<char>, k: int)
    requires
        1 <= k <= 3,
        has_length_suffix(s, k),
    ensures
        s.take(s.len() - k - 2) + seq!['['] + decimal(
            decimal_value(s.subrange(s.len() - k - 1, s.len() - 1)),
        ) + seq![']'] == s,
        decimal_value(s.subrange(s.len() - k - 1, s.len() - 1)) < 1000,
{
    let e = s.take(s.len() - k - 2);
    let num = s.subrange(s.len() - k - 1, s.len() - 1);
    lemma_numeral_bound(num);
    let joined = e + seq!['['] + num + seq![']'];
    assert(num.len() == k);
    assert(joined.len() == s.len());
    assert forall|i: int| 0 <= i < s.len() implies joined[i] == s[i] by {
        if i < e.len() {
            assert(joined[i] == e[i]);
        } else if i == e.len() {
            assert(joined[i] == '[');
        } else if i < s.len() - 1 {
            assert(joined[i] == num[i - e.len() - 1]);
        } else {
            assert(joined[i] == ']');
        }
    }
    assert(joined =~= s);
}

/// Round trip: the type read from a descriptor is well formed, and its
/// own descriptor is the text it was read from, character for character.
pub proof fn lemma_parse_round_trip(s: Seq<char>)
    requires
        parse_type(s) is Ok,
    ensures
        parse_type(s)->Ok_0.descriptor() == s,
        parse_type(s)->Ok_0.wf(),
    decreases s.len(),
{
    let k = length_digits(s);
    if k > 0 {
        lemma_parse_round_trip(s.take(s.len() - k - 2));
        assert(has_length_suffix(s, k));
        lemma_length_suffix_joins(s, k);
    } else if is_dynamic_array(s) {
        let e = s.take(s.len() - 2);
        lemma_parse_round_trip(e);
        assert(e + seq!['[', ']'] =~= s);
    } else {
        lemma_leaf_round_trip(s);
    }
}

/// The sign and the two numbers of `s`, when `s` has the shape of a
/// fixed-point descriptor, whether or not the numbers are in range.
pub fn fixed_captures(s: &str) -> (r: Option<(bool, usize, usize)>)
    ensures
        r is Some <==> fixed_parts(s@) is Some,
        r is Some ==> (r->0).0 == (fixed_parts(s@)->0).0 && (r->0).1 == (fixed_parts(s@)->0).1 && (
        r->0).2 == (fixed_parts(s@)->0).2,
{
    let chars = to_chars(s);
    assert(chars@.take(chars@.len() as int) =~= s@);
    read_fixed_parts(&chars, chars.len())
}

/// The length that `s` ends with, when `s` has the shape `element[N]`,
/// whatever the element is.
pub fn length_suffix(s: &str) -> (r: Option<usize>)
    ensures
        r is Some <==> length_digits(s@) > 0,
        r is Some ==> r->0 == decimal_value(
            s@.subrange(s@.len() - length_digits(s@) - 1, s@.len() - 1),
        ),
{
    let chars = to_chars(s);
    assert(chars@.take(chars@.len() as int) =~= s@);
    match read_length_suffix(&chars, chars.len()) {
        Some((_, m)) => Some(m),
        None => None,
    }
}

impl std::str::FromStr for Type {
    type Err = AbiError;

    /// Reads a type descriptor, as [`Type::parse`] does: the type read is
    /// well formed and its descriptor is the text it was read from.
    fn from_str(s: &str) -> (r: Result<Type, AbiError>)
        ensures
            outcome_is(r, parse_type(s@)),
            r is Ok ==> r->Ok_0.wf() && r->Ok_0.descriptor() == s@,
    {
        Type::parse(s)
    }
}

impl From<Type> for String {
    /// The descriptor of the type, character for character.
    fn from(value: Type) -> (r: String)
        ensures
            r@ == value.descriptor(),
    {
        value.to_string()
    }
}

/// The conversion is stated by the `ensures` of `from`, over the view of
/// the text. As a function into `String` values it has no definition
/// here: a specification knows a text by its view alone.
impl vstd::std_specs::convert::FromSpecImpl<Type> for String {
    open spec fn obeys_from_spec() -> bool {
        false
    }

    open spec fn from_spec(value: Type) -> String {
        arbitrary()
    }
}

} // verus!
