//! Character-level helpers shared by the grammar and the template engine.
use vstd::prelude::*;
use vstd::string::*;

verus! {

/// Whether `c` is one of the ten ASCII decimal digits.
pub open spec fn is_digit(c: char) -> bool {
    '0' <= c <= '9'
}

/// The value of the decimal digit `c`.
pub open spec fn digit_value(c: char) -> nat
    recommends
        is_digit(c),
{
    (c as int - '0' as int) as nat
}

/// The digit that stands for `d`, for `d < 10`.
pub open spec fn digit_char(d: nat) -> char
    recommends
        d < 10,
{
    (d + 48) as char
}

/// Whether every character of `s` is a decimal digit.
pub open spec fn all_digits(s: Seq<char>) -> bool {
    forall|i: int| 0 <= i < s.len() ==> is_digit(#[trigger] s[i])
}

/// The number that the digit string `s` denotes, read most significant digit first.
pub open spec fn decimal_value(s: Seq<char>) -> nat
    decreases s.len(),
{
    if s.len() == 0 {
        0
    } else {
        decimal_value(s.drop_last()) * 10 + digit_value(s.last())
    }
}

/// The shortest decimal rendering of `n`.
pub open spec fn decimal(n: nat) -> Seq<char>
    decreases n,
{
    if n < 10 {
        seq![digit_char(n)]
    } else {
        decimal(n / 10).push(digit_char(n % 10))
    }
}

/// A numeral of the descriptor grammar: one to three digits, with no
/// leading zero unless the numeral is `0` itself.
pub open spec fn is_numeral(s: Seq<char>) -> bool {
    &&& 1 <= s.len() <= 3
    &&& all_digits(s)
    &&& (s.len() > 1 ==> s[0] != '0')
}

/// Rendering a number and reading it back gives the number.
pub proof fn lemma_decimal_value_of_decimal(n: nat)
    ensures
        all_digits(decimal(n)),
        decimal(n).len() >= 1,
        decimal_value(decimal(n)) == n,
        n > 0 ==> decimal(n)[0] != '0',
    decreases n,
{
    if n < 10 {
        let s = decimal(n);
        assert(s.drop_last() =~= Seq::<char>::empty());
        assert(decimal_value(s.drop_last()) == 0);
    } else {
        lemma_decimal_value_of_decimal(n / 10);
        let s = decimal(n);
        assert(s.drop_last() =~= decimal(n / 10));
        assert(s[0] == decimal(n / 10)[0]);
    }
}

/// A digit string without a superfluous leading zero is the rendering of
/// its own value.
pub proof fn lemma_decimal_of_decimal_value(s: Seq<char>)
    requires
        s.len() >= 1,
        all_digits(s),
        s.len() > 1 ==> s[0] != '0',
    ensures
        decimal(decimal_value(s)) == s,
        s[0] != '0' ==> decimal_value(s) > 0,
    decreases s.len(),
{
    if s.len() == 1 {
        assert(s.drop_last() =~= Seq::<char>::empty());
        assert(decimal_value(s.drop_last()) == 0);
        assert(decimal(decimal_value(s)) =~= s);
    } else {
        let p = s.drop_last();
        assert(all_digits(p));
        if p.len() > 1 {
            assert(p[0] == s[0]);
        }
        lemma_decimal_of_decimal_value(p);
        assert(p[0] == s[0]);
        let v = decimal_value(p);
        let d = digit_value(s.last());
        assert(is_digit(s.last()));
        assert(v > 0);
        assert((v * 10 + d) / 10 == v && (v * 10 + d) % 10 == d);
        assert(decimal(decimal_value(s)) =~= s);
    }
}

/// A numeral denotes a number below one thousand.
pub proof fn lemma_numeral_bound(s: Seq<char>)
    requires
        is_numeral(s),
    ensures
        decimal_value(s) < 1000,
        decimal(decimal_value(s)) == s,
{
    lemma_decimal_of_decimal_value(s);
    lemma_digits_bound(s);
}

/// A string of `k` digits denotes a number below ten to the `k`.
pub proof fn lemma_digits_bound(s: Seq<char>)
    requires
        all_digits(s),
        s.len() <= 3,
    ensures
        s.len() == 0 ==> decimal_value(s) == 0,
        s.len() == 1 ==> decimal_value(s) < 10,
        s.len() == 2 ==> decimal_value(s) < 100,
        s.len() == 3 ==> decimal_value(s) < 1000,
    decreases s.len(),
{
    if s.len() > 0 {
        assert(all_digits(s.drop_last()));
        assert(is_digit(s.last()));
        lemma_digits_bound(s.drop_last());
    }
}

/// The rendering of a number below one thousand is a numeral.
pub proof fn lemma_decimal_is_numeral(n: nat)
    requires
        n < 1000,
    ensures
        is_numeral(decimal(n)),
{
    lemma_decimal_value_of_decimal(n);
    if n >= 10 {
        lemma_decimal_value_of_decimal(n / 10);
        if n >= 100 {
            lemma_decimal_value_of_decimal(n / 100);
            assert(decimal(n / 10) == decimal(n / 100).push(digit_char((n / 10) % 10)));
        }
    }
}

/// The characters of `s`, in order.
pub(crate) fn to_chars(s: &str) -> (chars: Vec<char>)
    ensures
        chars@ == s@,
{
    let mut chars: Vec<char> = Vec::new();
    for c in it: s.chars()
        invariant
            it.seq() == s@,
            chars@ == s@.take(it.index() as int),
    {
        chars.push(c);
        assert(s@.take(it.index() + 1) =~= s@.take(it.index() as int).push(c));
    }
    assert(s@.take(s@.len() as int) =~= s@);
    chars
}

/// Appends one character to `s`, by `String::push`: the text grows by
/// exactly `c` at its end.
#[verifier::external_body]
pub(crate) fn push_char(s: &mut String, c: char)
    ensures
        final(s)@ == old(s)@.push(c),
{
    s.push(c)
}

/// The text made of the characters `chars[from..to]`.
pub(crate) fn from_chars(chars: &Vec<char>, from: usize, to: usize) -> (s: String)
    requires
        from <= to <= chars.len(),
    ensures
        s@ == chars@.subrange(from as int, to as int),
{
    let mut s = String::new();
    let mut i: usize = from;
    while i < to
        invariant
            from <= i <= to <= chars.len(),
            s@ == chars@.subrange(from as int, i as int),
        decreases to - i,
    {
        push_char(&mut s, chars[i]);
        assert(chars@.subrange(from as int, i + 1) =~= chars@.subrange(from as int, i as int).push(
            chars@[i as int],
        ));
        i += 1;
    }
    s
}

/// The digit that stands for `d`.
pub(crate) fn digit_to_char(d: u8) -> (c: char)
    requires
        d < 10,
    ensures
        c == digit_char(d as nat),
        is_digit(c),
{
    (48u8 + d) as char
}

/// The shortest decimal rendering of `n`, as characters.
pub(crate) fn decimal_chars(n: usize) -> (digits: Vec<char>)
    ensures
        digits@ == decimal(n as nat),
    decreases n,
{
    if n < 10 {
        let mut digits: Vec<char> = Vec::new();
        digits.push(digit_to_char(n as u8));
        assert(digits@ =~= decimal(n as nat));
        digits
    } else {
        let mut digits = decimal_chars(n / 10);
        digits.push(digit_to_char((n % 10) as u8));
        digits
    }
}

/// The shortest decimal rendering of `n`.
pub fn decimal_string(n: usize) -> (s: String)
    ensures
        s@ == decimal(n as nat),
{
    let digits = decimal_chars(n);
    let s = from_chars(&digits, 0, digits.len());
    assert(digits@.subrange(0, digits@.len() as int) =~= digits@);
    s
}

/// Whether `pattern` occurs in `s` at position `at`.
pub open spec fn occurs_at(s: Seq<char>, pattern: Seq<char>, at: int) -> bool {
    &&& 0 <= at
    &&& at + pattern.len() <= s.len()
    &&& s.subrange(at, at + pattern.len()) == pattern
}

/// `s` with every occurrence of `pattern` replaced by `to`, occurrences
/// taken from the left and never overlapping. The empty pattern occurs
/// before every character and at the end.
pub open spec fn replace_all(s: Seq<char>, pattern: Seq<char>, to: Seq<char>) -> Seq<char>
    decreases s.len(),
{
    if pattern.len() == 0 {
        if s.len() == 0 {
            to
        } else {
            to + seq![s[0]] + replace_all(s.subrange(1, s.len() as int), pattern, to)
        }
    } else if s.len() < pattern.len() {
        s
    } else if occurs_at(s, pattern, 0) {
        to + replace_all(s.subrange(pattern.len() as int, s.len() as int), pattern, to)
    } else {
        seq![s[0]] + replace_all(s.subrange(1, s.len() as int), pattern, to)
    }
}

/// Whether `pattern` occurs in `s` at position `at`.
pub(crate) fn matches_at(s: &Vec<char>, pattern: &Vec<char>, at: usize) -> (found: bool)
    ensures
        found == occurs_at(s@, pattern@, at as int),
{
    if at > s.len() || pattern.len() > s.len() - at {
        return false;
    }
    let mut i: usize = 0;
    while i < pattern.len()
        invariant
            at + pattern.len() <= s.len(),
            i <= pattern.len(),
            forall|j: int| 0 <= j < i ==> s@[at + j] == pattern@[j],
        decreases pattern.len() - i,
    {
        if s[at + i] != pattern[i] {
            assert(s@.subrange(at as int, at + pattern.len())[i as int] != pattern@[i as int]);
            return false;
        }
        i += 1;
    }
    assert(s@.subrange(at as int, at + pattern.len()) =~= pattern@);
    true
}

/// Unfolds `replace_all` on the tail of `s` that starts at `at`.
proof fn lemma_replace_step(s: Seq<char>, pattern: Seq<char>, to: Seq<char>, at: int)
    requires
        pattern.len() > 0,
        0 <= at <= s.len(),
    ensures
        ({
            let rest = s.subrange(at, s.len() as int);
            replace_all(rest, pattern, to) == if s.len() - at < pattern.len() {
                rest
            } else if occurs_at(s, pattern, at) {
                to + replace_all(s.subrange(at + pattern.len(), s.len() as int), pattern, to)
            } else {
                seq![s[at]] + replace_all(s.subrange(at + 1, s.len() as int), pattern, to)
            }
        }),
{
    let rest = s.subrange(at, s.len() as int);
    if s.len() - at >= pattern.len() {
        assert(rest.subrange(0, pattern.len() as int) =~= s.subrange(at, at + pattern.len()));
        assert(rest.subrange(pattern.len() as int, rest.len() as int) =~= s.subrange(
            at + pattern.len(),
            s.len() as int,
        ));
        assert(rest.subrange(1, rest.len() as int) =~= s.subrange(at + 1, s.len() as int));
    }
}

/// Appends the characters of `more` to `out`.
pub(crate) fn extend_chars(out: &mut Vec<char>, more: &Vec<char>)
    ensures
        final(out)@ == old(out)@ + more@,
{
    let ghost before = out@;
    let mut j: usize = 0;
    while j < more.len()
        invariant
            j <= more.len(),
            out@ == before + more@.subrange(0, j as int),
        decreases more.len() - j,
    {
        out.push(more[j]);
        assert(more@.subrange(0, j + 1) =~= more@.subrange(0, j as int).push(more@[j as int]));
        j += 1;
    }
    assert(more@.subrange(0, more@.len() as int) =~= more@);
}

/// `s` with `to` before every character and at the end.
fn interleave_chars(s: &Vec<char>, to: &Vec<char>) -> (out: Vec<char>)
    ensures
        out@ == replace_all(s@, Seq::<char>::empty(), to@),
{
    let ghost none = Seq::<char>::empty();
    let mut out: Vec<char> = Vec::new();
    let mut i: usize = 0;
    assert(s@.subrange(0, s@.len() as int) =~= s@);
    while i < s.len()
        invariant
            i <= s.len(),
            none.len() == 0,
            out@ + replace_all(s@.subrange(i as int, s@.len() as int), none, to@) == replace_all(
                s@,
                none,
                to@,
            ),
        decreases s.len() - i,
    {
        let ghost before = out@;
        let ghost rest = s@.subrange(i as int, s@.len() as int);
        let ghost tail = replace_all(s@.subrange(i + 1, s@.len() as int), none, to@);
        assert(rest.subrange(1, rest.len() as int) =~= s@.subrange(i + 1, s@.len() as int));
        extend_chars(&mut out, to);
        out.push(s[i]);
        assert(out@ + tail =~= before + (to@ + seq![s@[i as int]] + tail));
        i += 1;
    }
    let ghost before = out@;
    assert(s@.subrange(s@.len() as int, s@.len() as int) =~= Seq::<char>::empty());
    extend_chars(&mut out, to);
    out
}

/// `s` with every occurrence of `pattern` replaced by `to`.
pub(crate) fn replace_chars(s: &Vec<char>, pattern: &Vec<char>, to: &Vec<char>) -> (out: Vec<char>)
    ensures
        out@ == replace_all(s@, pattern@, to@),
{
    if pattern.len() == 0 {
        assert(pattern@ =~= Seq::<char>::empty());
        return interleave_chars(s, to);
    }
    let mut out: Vec<char> = Vec::new();
    let mut i: usize = 0;
    assert(s@.subrange(0, s@.len() as int) =~= s@);
    while i < s.len()
        invariant
            pattern.len() > 0,
            i <= s.len(),
            out@ + replace_all(s@.subrange(i as int, s@.len() as int), pattern@, to@)
                == replace_all(s@, pattern@, to@),
        decreases s.len() - i,
    {
        proof {
            lemma_replace_step(s@, pattern@, to@, i as int);
        }
        let ghost before = out@;
        if matches_at(s, pattern, i) {
            extend_chars(&mut out, to);
            let ghost tail = replace_all(
                s@.subrange(i + pattern.len(), s@.len() as int),
                pattern@,
                to@,
            );
            assert((before + to@) + tail =~= before + (to@ + tail));
            i += pattern.len();
        } else {
            out.push(s[i]);
            if s.len() - i < pattern.len() {
                // no further occurrence fits: the rest is copied unchanged
                let ghost rest = s@.subrange(i as int, s@.len() as int);
                let ghost tail = s@.subrange(i + 1, s@.len() as int);
                proof {
                    lemma_replace_step(s@, pattern@, to@, i + 1);
                }
                assert(rest =~= seq![s@[i as int]] + tail);
                assert(before.push(s@[i as int]) + tail =~= before + rest);
            } else {
                let ghost tail = replace_all(
                    s@.subrange(i + 1, s@.len() as int),
                    pattern@,
                    to@,
                );
                assert(before.push(s@[i as int]) + tail =~= before + (seq![s@[i as int]] + tail));
            }
            i += 1;
        }
    }
    assert(s@.subrange(s@.len() as int, s@.len() as int) =~= Seq::<char>::empty());
    assert(out@ + Seq::<char>::empty() =~= out@);
    out
}

/// `s` with every occurrence of `pattern` replaced by `to`.
pub fn replace(s: &str, pattern: &str, to: &str) -> (out: String)
    ensures
        out@ == replace_all(s@, pattern@, to@),
{
    let out = replace_chars(&to_chars(s), &to_chars(pattern), &to_chars(to));
    let text = from_chars(&out, 0, out.len());
    assert(out@.subrange(0, out@.len() as int) =~= out@);
    text
}

/// The texts of `parts`, with `sep` between each two.
pub open spec fn join(parts: Seq<Seq<char>>, sep: char) -> Seq<char>
    decreases parts.len(),
{
    if parts.len() == 0 {
        Seq::empty()
    } else if parts.len() == 1 {
        parts[0]
    } else {
        join(parts.drop_last(), sep) + seq![sep] + parts.last()
    }
}

/// The views of a list of texts.
pub open spec fn texts(list: Seq<String>) -> Seq<Seq<char>> {
    Seq::new(list.len(), |i: int| list[i]@)
}

/// The texts of `parts`, with `sep` between each two.
pub fn join_strings(parts: &Vec<String>, sep: char) -> (out: String)
    ensures
        out@ == join(texts(parts@), sep),
{
    let mut out = String::new();
    let mut i: usize = 0;
    let ghost all = texts(parts@);
    assert(all.take(0) =~= Seq::<Seq<char>>::empty());
    while i < parts.len()
        invariant
            i <= parts.len(),
            all == texts(parts@),
            out@ == join(all.take(i as int), sep),
        decreases parts.len() - i,
    {
        let ghost before = all.take(i as int);
        let ghost after = all.take(i + 1);
        assert(after.drop_last() =~= before);
        assert(after.last() == parts@[i as int]@);
        if i > 0 {
            push_char(&mut out, sep);
        }
        out.append(parts[i].as_str());
        assert(out@ =~= join(after, sep));
        i += 1;
    }
    assert(all.take(parts@.len() as int) =~= all);
    out
}

/// Whether `c` occurs in `s`.
pub(crate) fn contains_char(s: &Vec<char>, c: char) -> (found: bool)
    ensures
        found == s@.contains(c),
{
    let mut i: usize = 0;
    while i < s.len()
        invariant
            i <= s.len(),
            forall|j: int| 0 <= j < i ==> s@[j] != c,
        decreases s.len() - i,
    {
        if s[i] == c {
            return true;
        }
        i += 1;
    }
    false
}

/// Whether `a` and `b` are the same text.
pub fn same_text(a: &str, b: &str) -> (r: bool)
    ensures
        r == (a@ == b@),
{
    let x = to_chars(a);
    let y = to_chars(b);
    if x.len() != y.len() {
        return false;
    }
    let mut i: usize = 0;
    while i < x.len()
        invariant
            i <= x.len(),
            x.len() == y.len(),
            x@ == a@,
            y@ == b@,
            forall|j: int| 0 <= j < i ==> x@[j] == y@[j],
        decreases x.len() - i,
    {
        if x[i] != y[i] {
            assert(x@[i as int] != y@[i as int]);
            return false;
        }
        i += 1;
    }
    assert(x@ =~= y@);
    true
}

} // verus!
