//! Laws of the descriptor grammar: the descriptor of a well-formed type
//! reads back as that type.
use crate::error::AbiErrorView;
use crate::grammar::{
    bytes_parts, fixed_body, fixed_parts, has_length_suffix, integer_parts, is_dynamic_array,
    length_digits, parse_bytes, parse_fixed, parse_integer, parse_type, simple_from_name,
    simple_name, split_index, splits_at, starts_with,
};
use crate::json::{Array, ArrayM, BytesM, FixedMN, IntegerM, SimpleType, Type};
use crate::text::{
    decimal, decimal_value, is_digit, is_numeral, lemma_decimal_is_numeral,
    lemma_decimal_value_of_decimal,
};
use vstd::prelude::*;

verus! {

/// The words of the grammar, character by character.
pub proof fn lemma_words()
    ensures
        "address"@ == seq!['a', 'd', 'd', 'r', 'e', 's', 's'],
        "uint"@ == seq!['u', 'i', 'n', 't'],
        "int"@ == seq!['i', 'n', 't'],
        "bool"@ == seq!['b', 'o', 'o', 'l'],
        "fixed"@ == seq!['f', 'i', 'x', 'e', 'd'],
        "ufixed"@ == seq!['u', 'f', 'i', 'x', 'e', 'd'],
        "function"@ == seq!['f', 'u', 'n', 'c', 't', 'i', 'o', 'n'],
        "bytes"@ == seq!['b', 'y', 't', 'e', 's'],
        "string"@ == seq!['s', 't', 'r', 'i', 'n', 'g'],
        "tuple"@ == seq!['t', 'u', 'p', 'l', 'e'],
{
    reveal_strlit("address");
    reveal_strlit("uint");
    reveal_strlit("int");
    reveal_strlit("bool");
    reveal_strlit("fixed");
    reveal_strlit("ufixed");
    reveal_strlit("function");
    reveal_strlit("bytes");
    reveal_strlit("string");
    reveal_strlit("tuple");
    assert("address"@ =~= seq!['a', 'd', 'd', 'r', 'e', 's', 's']);
    assert("uint"@ =~= seq!['u', 'i', 'n', 't']);
    assert("int"@ =~= seq!['i', 'n', 't']);
    assert("bool"@ =~= seq!['b', 'o', 'o', 'l']);
    assert("fixed"@ =~= seq!['f', 'i', 'x', 'e', 'd']);
    assert("ufixed"@ =~= seq!['u', 'f', 'i', 'x', 'e', 'd']);
    assert("function"@ =~= seq!['f', 'u', 'n', 'c', 't', 'i', 'o', 'n']);
    assert("bytes"@ =~= seq!['b', 'y', 't', 'e', 's']);
    assert("string"@ =~= seq!['s', 't', 'r', 'i', 'n', 'g']);
    assert("tuple"@ =~= seq!['t', 'u', 'p', 'l', 'e']);
}

/// A text that ends with a letter or a digit has no array suffix.
proof fn lemma_no_array_suffix(s: Seq<char>)
    requires
        s.len() > 0,
        s.last() != ']',
    ensures
        length_digits(s) == 0,
        !is_dynamic_array(s),
{
}

/// The word of a simple type reads back as that type.
proof fn lemma_simple_round_trip(k: SimpleType)
    ensures
        parse_type(simple_name(k)) == Ok::<Type, AbiErrorView>(Type::Simple(k)),
{
    lemma_words();
    let s = simple_name(k);
    lemma_no_array_suffix(s);
    assert(!is_numeral(Seq::<char>::empty()));
    match fixed_body(s) {
        Some((_, rest)) => {
            assert(rest.len() == 0);
            assert(split_index(rest) == 0);
        },
        None => {},
    }
    assert(fixed_parts(s) is None);
    assert(integer_parts(s) is None) by {
        if starts_with(s, "uint"@) {
            assert(s.take(4)[3] == 't');
            assert(s.skip(4).len() == 0);
        }
        if starts_with(s, "int"@) {
            assert(s.take(3)[2] == 't');
            assert(s.skip(3).len() == 0);
        }
    }
    assert(bytes_parts(s) is None) by {
        if starts_with(s, "bytes"@) {
            assert(s.take(5)[4] == 's');
            assert(s.skip(5).len() == 0);
        }
    }
    assert(simple_from_name(s) == Some(k)) by {
        assert(s[0] == simple_name(k)[0]);
        assert(s.len() == simple_name(k).len());
    }
}

/// A word followed by the rendering of `n` is that word and a numeral,
/// and ends with a digit.
proof fn lemma_word_then_number(word: Seq<char>, n: nat)
    requires
        n < 1000,
    ensures
        starts_with(word + decimal(n), word),
        (word + decimal(n)).skip(word.len() as int) == decimal(n),
        is_numeral(decimal(n)),
        decimal_value(decimal(n)) == n,
        is_digit((word + decimal(n)).last()),
{
    lemma_decimal_is_numeral(n);
    lemma_decimal_value_of_decimal(n);
    let s = word + decimal(n);
    assert(s.take(word.len() as int) =~= word);
    assert(s.skip(word.len() as int) =~= decimal(n));
    assert(s.last() == decimal(n).last());
}

/// The descriptor of a well-formed fixed-bytes type reads back as it.
proof fn lemma_bytes_round_trip(b: BytesM)
    requires
        b.wf(),
    ensures
        parse_type(b.descriptor()) == Ok::<Type, AbiErrorView>(Type::BytesM(b)),
        parse_bytes(b.descriptor()) == Ok::<BytesM, AbiErrorView>(b),
{
    lemma_words();
    let s = b.descriptor();
    lemma_word_then_number("bytes"@, b.m as nat);
    lemma_no_array_suffix(s);
    assert(s[0] == 'b');
    assert(!starts_with(s, "ufixed"@)) by {
        if starts_with(s, "ufixed"@) {
            assert(s.take(6)[0] == 'u');
        }
    }
    assert(!starts_with(s, "fixed"@)) by {
        if starts_with(s, "fixed"@) {
            assert(s.take(5)[0] == 'f');
        }
    }
    assert(!starts_with(s, "uint"@)) by {
        if starts_with(s, "uint"@) {
            assert(s.take(4)[0] == 'u');
        }
    }
    assert(!starts_with(s, "int"@)) by {
        if starts_with(s, "int"@) {
            assert(s.take(3)[0] == 'i');
        }
    }
    assert(fixed_parts(s) is None);
    assert(integer_parts(s) is None);
    assert(bytes_parts(s) == Some(b.m as nat));
}

/// The descriptor of a well-formed integer type reads back as it.
proof fn lemma_integer_round_trip(i: IntegerM)
    requires
        i.wf(),
    ensures
        parse_type(i.descriptor()) == Ok::<Type, AbiErrorView>(Type::IntegerM(i)),
        parse_integer(i.descriptor()) == Ok::<IntegerM, AbiErrorView>(i),
{
    lemma_words();
    let s = i.descriptor();
    let word = if i.signed {
        "int"@
    } else {
        "uint"@
    };
    lemma_word_then_number(word, i.m as nat);
    lemma_no_array_suffix(s);
    assert(s[1] == if i.signed {
        'n'
    } else {
        'i'
    });
    assert(!starts_with(s, "ufixed"@)) by {
        if starts_with(s, "ufixed"@) {
            assert(s.take(6)[1] == 'f');
        }
    }
    assert(!starts_with(s, "fixed"@)) by {
        if starts_with(s, "fixed"@) {
            assert(s.take(5)[0] == 'f');
            assert(s[0] == word[0]);
        }
    }
    assert(fixed_parts(s) is None);
    if i.signed {
        assert(!starts_with(s, "uint"@)) by {
            if starts_with(s, "uint"@) {
                assert(s.take(4)[0] == 'u');
                assert(s[0] == 'i');
            }
        }
    }
    assert(integer_parts(s) == Some((i.signed, i.m as nat)));
}

/// Two numerals with an `x` between them split at that `x`.
proof fn lemma_split_index(m: Seq<char>, n: Seq<char>)
    requires
        is_numeral(m),
        is_numeral(n),
    ensures
        split_index(m + seq!['x'] + n) == m.len(),
        (m + seq!['x'] + n).take(m.len() as int) == m,
        (m + seq!['x'] + n).skip(m.len() as int + 1) == n,
{
    let rest = m + seq!['x'] + n;
    let k = m.len() as int;
    assert(rest.take(k) =~= m);
    assert(rest.skip(k + 1) =~= n);
    assert(rest[k] == 'x');
    assert(splits_at(rest, k));
    assert forall|j: int| 0 < j < k implies !splits_at(rest, j) by {
        assert(rest[j] == m[j]);
        assert(is_digit(m[j]));
    }
}

/// The keyword and the sign of a fixed-point descriptor are read off
/// its beginning.
proof fn lemma_fixed_body(signed: bool, rest: Seq<char>)
    ensures
        fixed_body(
            (if signed {
                "fixed"@
            } else {
                "ufixed"@
            }) + rest,
        ) == Some((signed, rest)),
{
    lemma_words();
    let word = if signed {
        "fixed"@
    } else {
        "ufixed"@
    };
    let s = word + rest;
    assert(s.take(word.len() as int) =~= word);
    assert(s.skip(word.len() as int) =~= rest);
    if signed {
        assert(!starts_with(s, "ufixed"@)) by {
            if starts_with(s, "ufixed"@) {
                assert(s.take(6)[0] == 'u');
                assert(s[0] == 'f');
            }
        }
    }
}

/// The descriptor of a well-formed fixed-point type reads back as it.
proof fn lemma_fixed_round_trip(f: FixedMN)
    requires
        f.wf(),
    ensures
        parse_type(f.descriptor()) == Ok::<Type, AbiErrorView>(Type::FixedMN(f)),
        parse_fixed(f.descriptor()) == Ok::<FixedMN, AbiErrorView>(f),
{
    let s = f.descriptor();
    let word = if f.signed {
        "fixed"@
    } else {
        "ufixed"@
    };
    let m = decimal(f.m as nat);
    let n = decimal(f.n as nat);
    lemma_decimal_is_numeral(f.m as nat);
    lemma_decimal_is_numeral(f.n as nat);
    lemma_decimal_value_of_decimal(f.m as nat);
    lemma_decimal_value_of_decimal(f.n as nat);
    let rest = m + seq!['x'] + n;
    assert(s =~= word + rest);
    assert(s.last() == n.last());
    lemma_no_array_suffix(s);
    lemma_fixed_body(f.signed, rest);
    lemma_split_index(m, n);
    assert(fixed_parts(s) == Some((f.signed, f.m as nat, f.n as nat)));
}

/// An element followed by a length in brackets has the shape of a
/// fixed-length array, and splits into that element and that length.
proof fn lemma_length_suffix(e: Seq<char>, n: nat)
    requires
        n < 1000,
    ensures
        ({
            let s = e + seq!['['] + decimal(n) + seq![']'];
            let k = decimal(n).len() as int;
            &&& length_digits(s) == k
            &&& k > 0
            &&& s.take(s.len() - k - 2) == e
            &&& decimal_value(s.subrange(s.len() - k - 1, s.len() - 1)) == n
        }),
{
    let m = decimal(n);
    let s = e + seq!['['] + m + seq![']'];
    lemma_decimal_is_numeral(n);
    lemma_decimal_value_of_decimal(n);
    let k = m.len() as int;
    assert(s.len() == e.len() + k + 2);
    assert(s.subrange(s.len() - k - 1, s.len() - 1) =~= m);
    assert(s.take(s.len() - k - 2) =~= e);
    assert(has_length_suffix(s, k));
    assert forall|j: int| 1 <= j < k implies !has_length_suffix(s, j) by {
        assert(s[s.len() - j - 2] == m[k - j - 1]);
        assert(is_digit(m[k - j - 1]));
    }
}

/// An element followed by empty brackets has the shape of a dynamic
/// array and not of a fixed-length one, and splits off that element.
proof fn lemma_empty_suffix(e: Seq<char>)
    ensures
        ({
            let s = e + seq!['[', ']'];
            &&& length_digits(s) == 0
            &&& is_dynamic_array(s)
            &&& s.take(s.len() - 2) == e
        }),
{
    let s = e + seq!['[', ']'];
    assert(s.take(s.len() - 2) =~= e);
    assert(s[s.len() - 2] == '[');
    assert forall|j: int| 1 <= j <= 3 implies !has_length_suffix(s, j) by {
        if has_length_suffix(s, j) {
            let num = s.subrange(s.len() - j - 1, s.len() - 1);
            assert(num[j - 1] == s[s.len() - 2]);
            assert(is_digit(num[j - 1]));
        }
    }
}

/// The descriptor of a well-formed type reads back as that type.
pub proof fn lemma_descriptor_round_trip(t: Type)
    requires
        t.wf(),
    ensures
        parse_type(t.descriptor()) == Ok::<Type, AbiErrorView>(t),
    decreases t,
{
    match t {
        Type::Simple(k) => lemma_simple_round_trip(k),
        Type::BytesM(b) => lemma_bytes_round_trip(b),
        Type::IntegerM(i) => lemma_integer_round_trip(i),
        Type::FixedMN(f) => lemma_fixed_round_trip(f),
        Type::ArrayM(a) => {
            lemma_descriptor_round_trip(a.element);
            lemma_length_suffix(a.element.descriptor(), a.m as nat);
        },
        Type::Array(a) => {
            lemma_descriptor_round_trip(a.element);
            lemma_empty_suffix(a.element.descriptor());
        },
    }
}

/// Two well-formed types with the same descriptor are the same type.
pub proof fn lemma_descriptor_is_injective(a: Type, b: Type)
    requires
        a.wf(),
        b.wf(),
        a.descriptor() == b.descriptor(),
    ensures
        a == b,
{
    lemma_descriptor_round_trip(a);
    lemma_descriptor_round_trip(b);
}

} // verus!
