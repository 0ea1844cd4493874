//! Character-level building blocks for emitting IR text: decimal numerals,
//! separator joins, newline-terminated line lists, and the string wrappers
//! that the emitters use to build `String`s.

use vstd::prelude::*;

verus! {

/// The ASCII digit for `d` (0 through 9).
pub open spec fn digit_char(d: int) -> char {
    if d == 0 { '0' }
    else if d == 1 { '1' }
    else if d == 2 { '2' }
    else if d == 3 { '3' }
    else if d == 4 { '4' }
    else if d == 5 { '5' }
    else if d == 6 { '6' }
    else if d == 7 { '7' }
    else if d == 8 { '8' }
    else { '9' }
}

/// `c` is one of `'0'..='9'`.
pub open spec fn is_digit(c: char) -> bool {
    '0' <= c && c <= '9'
}

/// Decimal numeral of `n`, without sign or leading zeros (what `{}` prints
/// for an unsigned integer).
pub open spec fn dec(n: nat) -> Seq<char>
    decreases n,
{
    if n < 10 {
        seq![digit_char(n as int)]
    } else {
        dec(n / 10).push(digit_char((n % 10) as int))
    }
}

/// `parts` joined with `sep` between consecutive elements (`[..].join(sep)`).
pub open spec fn join(parts: Seq<Seq<char>>, sep: Seq<char>) -> Seq<char>
    decreases parts.len(),
{
    if parts.len() == 0 {
        Seq::empty()
    } else if parts.len() == 1 {
        parts[0]
    } else {
        join(parts.drop_last(), sep) + sep + parts.last()
    }
}

/// Each element followed by a newline, concatenated.
pub open spec fn lines_text(parts: Seq<Seq<char>>) -> Seq<char>
    decreases parts.len(),
{
    if parts.len() == 0 {
        Seq::empty()
    } else {
        lines_text(parts.drop_last()) + parts.last() + seq!['\n']
    }
}

/// The views of a vector of strings.
pub open spec fn strings_view(v: Seq<String>) -> Seq<Seq<char>> {
    v.map_values(|s: String| s@)
}

/// Appends one character to a string (`String::push`).
#[verifier::external_body]
pub fn push_char(s: &mut String, c: char)
    ensures
        final(s)@ == old(s)@.push(c),
{
    s.push(c);
}

/// The characters of `s`, in order.
pub fn chars_of(s: &str) -> (v: Vec<char>)
    ensures
        v@ == s@,
{
    broadcast use vstd::string::group_string_axioms;

    let mut v: Vec<char> = Vec::new();
    for c in it: s.chars()
        invariant
            v@ == it.seq().take(it.index() as int),
            it.seq() == s@,
    {
        v.push(c);
    }
    v
}

/// The ASCII digit for `d`.
pub fn digit(d: u8) -> (c: char)
    requires
        d < 10,
    ensures
        c == digit_char(d as int),
{
    if d == 0 { '0' }
    else if d == 1 { '1' }
    else if d == 2 { '2' }
    else if d == 3 { '3' }
    else if d == 4 { '4' }
    else if d == 5 { '5' }
    else if d == 6 { '6' }
    else if d == 7 { '7' }
    else if d == 8 { '8' }
    else { '9' }
}

/// Appends the decimal numeral of `n`.
pub fn push_dec(s: &mut String, n: u64)
    ensures
        final(s)@ == old(s)@ + dec(n as nat),
    decreases n,
{
    if n >= 10 {
        push_dec(s, n / 10);
        push_char(s, digit((n % 10) as u8));
        assert(s@ =~= old(s)@ + dec(n as nat));
    } else {
        push_char(s, digit(n as u8));
        assert(s@ =~= old(s)@ + dec(n as nat));
    }
}

/// The decimal numeral of `n` as a new string.
pub fn dec_string(n: u64) -> (s: String)
    ensures
        s@ == dec(n as nat),
{
    let mut s = String::new();
    push_dec(&mut s, n);
    assert(s@ =~= dec(n as nat));
    s
}

/// Appends every character of `v`.
pub fn push_chars(s: &mut String, v: &Vec<char>)
    ensures
        final(s)@ == old(s)@ + v@,
{
    let mut i: usize = 0;
    while i < v.len()
        invariant
            i <= v.len(),
            s@ == old(s)@ + v@.take(i as int),
        decreases v.len() - i,
    {
        push_char(s, v[i]);
        i = i + 1;
        assert(s@ =~= old(s)@ + v@.take(i as int));
    }
    assert(v@.take(v.len() as int) =~= v@);
}

/// Joins the strings of `parts` with `sep` between them.
pub fn join_strings(parts: &Vec<String>, sep: &str) -> (r: String)
    ensures
        r@ == join(strings_view(parts@), sep@),
{
    let mut r = String::new();
    let mut i: usize = 0;
    while i < parts.len()
        invariant
            i <= parts.len(),
            r@ == join(strings_view(parts@).take(i as int), sep@),
        decreases parts.len() - i,
    {
        let ghost before = strings_view(parts@).take(i as int);
        let ghost after = strings_view(parts@).take(i + 1);
        assert(after.drop_last() =~= before);
        if i > 0 {
            r.append(sep);
        }
        r.append(parts[i].as_str());
        i = i + 1;
        assert(r@ =~= join(after, sep@));
    }
    assert(strings_view(parts@).take(parts.len() as int) =~= strings_view(parts@));
    r
}

/// Appends the strings `parts[from..to]`, each followed by a newline.
pub fn push_lines_range(s: &mut String, parts: &[String], from: usize, to: usize)
    requires
        from <= to <= parts@.len(),
    ensures
        final(s)@ == old(s)@ + lines_text(strings_view(parts@).subrange(from as int, to as int)),
{
    let mut i: usize = from;
    assert(strings_view(parts@).subrange(from as int, from as int) =~= Seq::<Seq<char>>::empty());
    assert(s@ =~= old(s)@ + Seq::<char>::empty());
    while i < to
        invariant
            from <= i <= to,
            to <= parts@.len(),
            s@ == old(s)@ + lines_text(strings_view(parts@).subrange(from as int, i as int)),
        decreases to - i,
    {
        let ghost after = strings_view(parts@).subrange(from as int, i + 1);
        assert(after.drop_last() =~= strings_view(parts@).subrange(from as int, i as int));
        s.append(parts[i].as_str());
        push_char(s, '\n');
        i = i + 1;
        assert(s@ =~= old(s)@ + lines_text(after));
    }
}

/// Appends every string of `parts`, each followed by a newline.
pub fn push_lines(s: &mut String, parts: &[String])
    ensures
        final(s)@ == old(s)@ + lines_text(strings_view(parts@)),
{
    push_lines_range(s, parts, 0, parts.len());
    assert(strings_view(parts@).subrange(0, parts@.len() as int) =~= strings_view(parts@));
}

/// A decimal numeral has at least one character, all of them digits.
pub proof fn lemma_dec_digits(n: nat)
    ensures
        dec(n).len() >= 1,
        forall|i: int| 0 <= i < dec(n).len() ==> is_digit(#[trigger] dec(n)[i]),
    decreases n,
{
    if n >= 10 {
        lemma_dec_digits(n / 10);
    }
}

/// Distinct numbers have distinct decimal numerals.
pub proof fn lemma_dec_injective(m: nat, n: nat)
    requires
        dec(m) == dec(n),
    ensures
        m == n,
    decreases m + n,
{
    lemma_dec_digits(m);
    lemma_dec_digits(n);
    if m < 10 && n < 10 {
        assert(dec(m)[0] == digit_char(m as int));
        assert(dec(n)[0] == digit_char(n as int));
    } else if m < 10 {
        lemma_dec_digits(n / 10);
        assert(dec(n).len() >= 2);
    } else if n < 10 {
        lemma_dec_digits(m / 10);
        assert(dec(m).len() >= 2);
    } else {
        assert(dec(m) == dec(m / 10).push(digit_char((m % 10) as int)));
        assert(dec(n) == dec(n / 10).push(digit_char((n % 10) as int)));
        assert(dec(m).last() == digit_char((m % 10) as int));
        assert(dec(n).last() == digit_char((n % 10) as int));
        assert(dec(m).drop_last() =~= dec(m / 10));
        assert(dec(n).drop_last() =~= dec(n / 10));
        lemma_dec_injective(m / 10, n / 10);
        assert(digit_char((m % 10) as int) == digit_char((n % 10) as int));
        assert(m % 10 == n % 10);
    }
}

} // verus!
