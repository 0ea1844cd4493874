//! Compile-time CSS color parsing for inline widget styles.
//!
//! Supports `#RGB`, `#RGBA`, `#RRGGBB`, `#RRGGBBAA` hex forms and a small
//! set of named colors, after trimming whitespace and lowering ASCII case.
//! Each channel comes out as an exact fraction `num / den` in `[0, 1]`;
//! rendering it as a float literal is left to the caller.
//!
//! The two-digit forms slice the hex text by bytes: when a slice boundary
//! falls inside a multi-byte character the parse panics.
//! `color_string_panics` tells those inputs apart, and `parse_color_string`
//! is only defined on the others.

use vstd::prelude::*;

use crate::shadow::{first_non_ws, is_ws, is_ws_char, trim_start};
use crate::text::chars_of;

verus! {

/// One color channel, worth `num / den`.
#[derive(Clone, Copy, Debug, PartialEq, Eq)]
pub struct Channel {
    pub num: u32,
    pub den: u32,
}

/// The four channels of a color.
#[derive(Clone, Copy, Debug, PartialEq, Eq)]
pub struct Rgba {
    pub r: Channel,
    pub g: Channel,
    pub b: Channel,
    pub a: Channel,
}

pub open spec fn ch(num: u32, den: u32) -> Channel {
    Channel { num, den }
}

pub open spec fn rgba(r: Channel, g: Channel, b: Channel, a: Channel) -> Rgba {
    Rgba { r, g, b, a }
}

/// `str::trim_end`: `s` without its trailing whitespace.
pub open spec fn trim_end(s: Seq<char>) -> Seq<char>
    decreases s.len(),
{
    if s.len() > 0 && is_ws(s.last()) {
        trim_end(s.drop_last())
    } else {
        s
    }
}

/// `str::trim`.
pub open spec fn trim(s: Seq<char>) -> Seq<char> {
    trim_end(trim_start(s))
}

/// Code point of `c` after `to_ascii_lowercase`.
pub open spec fn lower_code(c: char) -> u32 {
    if 'A' <= c && c <= 'Z' {
        ((c as u32) + 32) as u32
    } else {
        c as u32
    }
}

/// Code points of `s` after `to_ascii_lowercase`.
pub open spec fn lowered(s: Seq<char>) -> Seq<u32> {
    s.map_values(|c: char| lower_code(c))
}

/// Code points of `s`.
pub open spec fn codes(s: Seq<char>) -> Seq<u32> {
    s.map_values(|c: char| c as u32)
}

/// The named colors.
pub open spec fn named_color(l: Seq<u32>) -> Option<Rgba> {
    let one = ch(1, 1);
    let zero = ch(0, 1);
    let half = ch(502, 1000);
    if l == codes("white"@) {
        Some(rgba(one, one, one, one))
    } else if l == codes("black"@) {
        Some(rgba(zero, zero, zero, one))
    } else if l == codes("red"@) {
        Some(rgba(one, zero, zero, one))
    } else if l == codes("green"@) {
        Some(rgba(zero, half, zero, one))
    } else if l == codes("blue"@) {
        Some(rgba(zero, zero, one, one))
    } else if l == codes("yellow"@) {
        Some(rgba(one, one, zero, one))
    } else if l == codes("cyan"@) {
        Some(rgba(zero, one, one, one))
    } else if l == codes("magenta"@) {
        Some(rgba(one, zero, one, one))
    } else if l == codes("gray"@) || l == codes("grey"@) {
        Some(rgba(half, half, half, one))
    } else if l == codes("transparent"@) {
        Some(rgba(zero, zero, zero, zero))
    } else {
        None
    }
}

/// Bytes in the UTF-8 encoding of code point `c`.
pub open spec fn utf8_width(c: u32) -> nat {
    if c < 0x80 {
        1
    } else if c < 0x800 {
        2
    } else if c < 0x10000 {
        3
    } else {
        4
    }
}

/// Bytes in the UTF-8 encoding of `h`.
pub open spec fn byte_len(h: Seq<u32>) -> nat
    decreases h.len(),
{
    if h.len() == 0 {
        0
    } else {
        byte_len(h.drop_last()) + utf8_width(h.last())
    }
}

/// Value of a lowercase hex digit (`char::to_digit(16)` after lowering).
pub open spec fn hex_value(c: u32) -> Option<u32> {
    if 48 <= c && c <= 57 {
        Some((c - 48) as u32)
    } else if 97 <= c && c <= 102 {
        Some((c - 87) as u32)
    } else {
        None
    }
}

/// Value of a two-character pair of the `#RRGGBB` forms: defined only
/// when both characters are hex digits.
pub open spec fn pair_value(c0: u32, c1: u32) -> Option<u32> {
    match (hex_value(c0), hex_value(c1)) {
        (Some(a), Some(b)) => Some((16 * a + b) as u32),
        _ => None,
    }
}

/// What slicing and parsing the `p`th two-byte pair does, given that all
/// characters before it are single bytes.
pub enum PairStep {
    Value(u32),
    Fails,
    Panics,
}

pub open spec fn pair_step(h: Seq<u32>, p: int) -> PairStep {
    let c0 = h[2 * p];
    if utf8_width(c0) >= 3 {
        PairStep::Panics
    } else if utf8_width(c0) == 2 {
        PairStep::Fails
    } else if utf8_width(h[2 * p + 1]) >= 2 {
        PairStep::Panics
    } else {
        match pair_value(c0, h[2 * p + 1]) {
            Some(v) => PairStep::Value(v),
            None => PairStep::Fails,
        }
    }
}

/// Outcome of the pairs from `p` on (`n` pairs in all): the first pair
/// that does not yield a value decides; otherwise all of them parse.
pub open spec fn pairs_outcome(h: Seq<u32>, p: int, n: int) -> PairStep
    decreases n - p,
{
    if p >= n {
        PairStep::Value(0)
    } else {
        match pair_step(h, p) {
            PairStep::Value(_) => pairs_outcome(h, p + 1, n),
            other => other,
        }
    }
}

/// Channel of a one-digit form: the digit doubled, over 255.
pub open spec fn nibble_channel(c: u32) -> Channel {
    ch((17 * hex_value(c).unwrap()) as u32, 255)
}

/// Channel of the `p`th pair, over 255.
pub open spec fn pair_channel(h: Seq<u32>, p: int) -> Channel {
    ch(pair_value(h[2 * p], h[2 * p + 1]).unwrap(), 255)
}

/// The lowered, trimmed text.
pub open spec fn color_key(s: Seq<char>) -> Seq<u32> {
    lowered(trim(s))
}

/// The hex digits after the `#`.
pub open spec fn hex_part(l: Seq<u32>) -> Seq<u32> {
    l.skip(1)
}

pub open spec fn is_hex_form(l: Seq<u32>) -> bool {
    named_color(l) is None && l.len() > 0 && l[0] == 35
}

/// The inputs on which the two-digit forms slice inside a character.
pub open spec fn color_panics(s: Seq<char>) -> bool {
    let l = color_key(s);
    let h = hex_part(l);
    let b = byte_len(h);
    is_hex_form(l) && (b == 6 || b == 8) && pairs_outcome(h, 0, (b / 2) as int) is Panics
}

/// The color a style string denotes, if any.
pub open spec fn parse_color_spec(s: Seq<char>) -> Option<Rgba> {
    let l = color_key(s);
    if named_color(l) is Some {
        named_color(l)
    } else if is_hex_form(l) {
        let h = hex_part(l);
        let b = byte_len(h);
        if b == 3 && h.len() == 3 && hex_value(h[0]) is Some && hex_value(h[1]) is Some
            && hex_value(h[2]) is Some {
            Some(rgba(nibble_channel(h[0]), nibble_channel(h[1]), nibble_channel(h[2]), ch(1, 1)))
        } else if b == 4 && h.len() == 4 && hex_value(h[0]) is Some && hex_value(h[1]) is Some
            && hex_value(h[2]) is Some && hex_value(h[3]) is Some {
            Some(
                rgba(
                    nibble_channel(h[0]),
                    nibble_channel(h[1]),
                    nibble_channel(h[2]),
                    nibble_channel(h[3]),
                ),
            )
        } else if b == 6 && pairs_outcome(h, 0, 3) is Value {
            Some(rgba(pair_channel(h, 0), pair_channel(h, 1), pair_channel(h, 2), ch(1, 1)))
        } else if b == 8 && pairs_outcome(h, 0, 4) is Value {
            Some(rgba(pair_channel(h, 0), pair_channel(h, 1), pair_channel(h, 2), pair_channel(h, 3)))
        } else {
            None
        }
    } else {
        None
    }
}


/// A channel is a fraction in `[0, 1]`.
pub open spec fn unit_channel(c: Channel) -> bool {
    c.den > 0 && c.num <= c.den
}

/// Every color the parser produces has all four channels in `[0, 1]`.
pub proof fn lemma_channels_in_unit_range(s: Seq<char>)
    ensures
        parse_color_spec(s) matches Some(c) ==> unit_channel(c.r) && unit_channel(c.g) && unit_channel(c.b)
            && unit_channel(c.a),
{
    let l = color_key(s);
    let h = hex_part(l);
    if named_color(l) is None && is_hex_form(l) {
        let b = byte_len(h);
        if b == 6 && pairs_outcome(h, 0, 3) is Value {
            lemma_pairs_values(h, 0, 3);
        } else if b == 8 && pairs_outcome(h, 0, 4) is Value {
            lemma_pairs_values(h, 0, 4);
        }
    }
}

/// When all pairs parse, each one is a byte value.
proof fn lemma_pairs_values(h: Seq<u32>, p: int, n: int)
    requires
        0 <= p,
        pairs_outcome(h, p, n) is Value,
    ensures
        forall|q: int| p <= q < n ==> (#[trigger] pair_value(h[2 * q], h[2 * q + 1]) matches Some(v) && v <= 255),
    decreases n - p,
{
    if p < n {
        lemma_pairs_values(h, p + 1, n);
        assert forall|q: int| p <= q < n implies (#[trigger] pair_value(h[2 * q], h[2 * q + 1]) matches Some(v) && v <= 255) by {
            if q == p {
                assert(pair_step(h, p) is Value);
            }
        }
    }
}

/// `byte_len` adds up over a split.
proof fn lemma_byte_len_split(h: Seq<u32>, k: int)
    requires
        0 <= k <= h.len(),
    ensures
        byte_len(h) == byte_len(h.take(k)) + byte_len(h.skip(k)),
    decreases h.len(),
{
    if k == h.len() {
        assert(h.take(k) =~= h);
        assert(h.skip(k) =~= Seq::<u32>::empty());
    } else {
        lemma_byte_len_split(h.drop_last(), k);
        assert(h.drop_last().take(k) =~= h.take(k));
        assert(h.skip(k).drop_last() =~= h.drop_last().skip(k));
        assert(h.skip(k).last() == h.last());
    }
}

/// A text with bytes has characters.
proof fn lemma_byte_len_positive(h: Seq<u32>)
    requires
        byte_len(h) > 0,
    ensures
        h.len() > 0,
{
}

/// The first character's bytes come first.
proof fn lemma_byte_len_first(h: Seq<u32>)
    requires
        h.len() > 0,
    ensures
        byte_len(h) == utf8_width(h[0]) + byte_len(h.skip(1)),
{
    lemma_byte_len_split(h, 1);
    assert(h.take(1).drop_last() =~= Seq::<u32>::empty());
    assert(h.take(1).last() == h[0]);
    assert(byte_len(h.take(1)) == byte_len(h.take(1).drop_last()) + utf8_width(h[0]));
}

fn width_of(c: u32) -> (w: usize)
    ensures
        w == utf8_width(c),
{
    if c < 0x80 {
        1
    } else if c < 0x800 {
        2
    } else if c < 0x10000 {
        3
    } else {
        4
    }
}

fn hex_value_of(c: u32) -> (r: Option<u32>)
    ensures
        r == hex_value(c),
{
    if 48 <= c && c <= 57 {
        Some(c - 48)
    } else if 97 <= c && c <= 102 {
        Some(c - 87)
    } else {
        None
    }
}

fn pair_value_of(c0: u32, c1: u32) -> (r: Option<u32>)
    ensures
        r == pair_value(c0, c1),
{
    match (hex_value_of(c0), hex_value_of(c1)) {
        (Some(a), Some(b)) => Some(16 * a + b),
        _ => None,
    }
}

/// `trim(s)`, as characters.
fn trimmed(s: &str) -> (t: Vec<char>)
    ensures
        t@ == trim(s@),
{
    let v = chars_of(s);
    let j = first_non_ws(&v);
    let mut e = v.len();
    assert(v@.subrange(j as int, e as int) =~= v@.skip(j as int));
    while e > j && is_ws_char(v[e - 1])
        invariant
            j <= e <= v.len(),
            trim(v@) == trim_end(v@.subrange(j as int, e as int)),
            trim_start(v@) == v@.skip(j as int),
        decreases e,
    {
        assert(v@.subrange(j as int, e as int).drop_last() =~= v@.subrange(j as int, e - 1));
        e = e - 1;
    }
    let mut t: Vec<char> = Vec::new();
    let mut i = j;
    while i < e
        invariant
            j <= i <= e <= v.len(),
            t@ == v@.subrange(j as int, i as int),
        decreases e - i,
    {
        t.push(v[i]);
        i = i + 1;
        assert(t@ =~= v@.subrange(j as int, i as int));
    }
    t
}

/// `lowered(v)`.
fn lower_codes(v: &Vec<char>) -> (l: Vec<u32>)
    ensures
        l@ == lowered(v@),
{
    let mut l: Vec<u32> = Vec::new();
    let mut i: usize = 0;
    while i < v.len()
        invariant
            i <= v.len(),
            l@ == lowered(v@.take(i as int)),
        decreases v.len() - i,
    {
        let c = v[i];
        let code = c as u32;
        let lc = if 'A' <= c && c <= 'Z' {
            code + 32
        } else {
            code
        };
        l.push(lc);
        i = i + 1;
        assert(l@ =~= lowered(v@.take(i as int)));
    }
    assert(v@.take(v.len() as int) =~= v@);
    l
}

/// Whether `l` holds exactly the code points of `lit`.
fn codes_eq(l: &Vec<u32>, lit: &str) -> (b: bool)
    ensures
        b == (l@ == codes(lit@)),
{
    let w = chars_of(lit);
    if w.len() != l.len() {
        return false;
    }
    let mut i: usize = 0;
    while i < l.len()
        invariant
            i <= l.len(),
            w.len() == l.len(),
            w@ == lit@,
            forall|k: int| 0 <= k < i ==> l@[k] == codes(lit@)[k],
        decreases l.len() - i,
    {
        if l[i] != w[i] as u32 {
            assert(l@[i as int] != codes(lit@)[i as int]);
            return false;
        }
        i = i + 1;
    }
    assert(l@ =~= codes(lit@));
    true
}

fn one_ch() -> (c: Channel)
    ensures
        c == ch(1, 1),
{
    Channel { num: 1, den: 1 }
}

fn zero_ch() -> (c: Channel)
    ensures
        c == ch(0, 1),
{
    Channel { num: 0, den: 1 }
}

fn named(l: &Vec<u32>) -> (r: Option<Rgba>)
    ensures
        r == named_color(l@),
{
    let one = one_ch();
    let zero = zero_ch();
    let half = Channel { num: 502, den: 1000 };
    if codes_eq(l, "white") {
        Some(Rgba { r: one, g: one, b: one, a: one })
    } else if codes_eq(l, "black") {
        Some(Rgba { r: zero, g: zero, b: zero, a: one })
    } else if codes_eq(l, "red") {
        Some(Rgba { r: one, g: zero, b: zero, a: one })
    } else if codes_eq(l, "green") {
        Some(Rgba { r: zero, g: half, b: zero, a: one })
    } else if codes_eq(l, "blue") {
        Some(Rgba { r: zero, g: zero, b: one, a: one })
    } else if codes_eq(l, "yellow") {
        Some(Rgba { r: one, g: one, b: zero, a: one })
    } else if codes_eq(l, "cyan") {
        Some(Rgba { r: zero, g: one, b: one, a: one })
    } else if codes_eq(l, "magenta") {
        Some(Rgba { r: one, g: zero, b: one, a: one })
    } else if codes_eq(l, "gray") || codes_eq(l, "grey") {
        Some(Rgba { r: half, g: half, b: half, a: one })
    } else if codes_eq(l, "transparent") {
        Some(Rgba { r: zero, g: zero, b: zero, a: zero })
    } else {
        None
    }
}

/// `min(byte_len(h), 9)`.
fn byte_len_capped(h: &Vec<u32>) -> (b: usize)
    ensures
        b == (if byte_len(h@) < 9 {
            byte_len(h@)
        } else {
            9
        }),
{
    let mut total: usize = 0;
    let mut i: usize = 0;
    while i < h.len()
        invariant
            i <= h.len(),
            total == byte_len(h@.take(i as int)),
            total < 9,
        decreases h.len() - i,
    {
        assert(h@.take(i + 1).drop_last() =~= h@.take(i as int));
        total = total + width_of(h[i]);
        i = i + 1;
        if total >= 9 {
            proof {
                lemma_byte_len_split(h@, i as int);
            }
            return 9;
        }
    }
    assert(h@.take(h.len() as int) =~= h@);
    total
}

/// Slices and parses the `n` two-byte pairs of `h`: their values, or
/// whether the first pair that does not parse panics (`true`) or fails.
fn parse_pairs(h: &Vec<u32>, n: usize) -> (r: Result<Vec<u32>, bool>)
    requires
        byte_len(h@) == 2 * n,
    ensures
        match r {
            Ok(vals) => {
                &&& pairs_outcome(h@, 0, n as int) is Value
                &&& vals.len() == n
                &&& forall|q: int| 0 <= q < n ==> pair_value(h@[2 * q], h@[2 * q + 1]) == Some(#[trigger] vals@[q])
            },
            Err(panics) => pairs_outcome(h@, 0, n as int) == if panics {
                PairStep::Panics
            } else {
                PairStep::Fails
            },
        },
{
    let mut vals: Vec<u32> = Vec::new();
    let mut p: usize = 0;
    proof {
        assert(h@.take(0) =~= Seq::<u32>::empty());
    }
    while p < n
        invariant
            p <= n,
            byte_len(h@) == 2 * n,
            2 * p <= h.len(),
            byte_len(h@.take(2 * p)) == 2 * p,
            pairs_outcome(h@, 0, n as int) == pairs_outcome(h@, p as int, n as int),
            vals.len() == p,
            forall|q: int| 0 <= q < p ==> pair_step(h@, q) is Value,
            forall|q: int| 0 <= q < p ==> pair_value(h@[2 * q], h@[2 * q + 1]) == Some(#[trigger] vals@[q]),
        decreases n - p,
    {
        let i = 2 * p;
        proof {
            lemma_byte_len_split(h@, i as int);
            lemma_byte_len_positive(h@.skip(i as int));
            lemma_byte_len_first(h@.skip(i as int));
            assert(h@.skip(i as int).skip(1) =~= h@.skip(i + 1));
        }
        let c0 = h[i];
        let w0 = width_of(c0);
        if w0 >= 3 {
            return Err(true);
        } else if w0 == 2 {
            return Err(false);
        }
        proof {
            lemma_byte_len_positive(h@.skip(i + 1));
            lemma_byte_len_first(h@.skip(i + 1));
            assert(h@.skip(i + 1).skip(1) =~= h@.skip(i + 2));
        }
        let c1 = h[i + 1];
        if width_of(c1) >= 2 {
            return Err(true);
        }
        match pair_value_of(c0, c1) {
            Some(v) => {
                vals.push(v);
            },
            None => {
                return Err(false);
            },
        }
        proof {
            lemma_byte_len_split(h@.take(i + 2), i as int);
            assert(h@.take(i + 2).take(i as int) =~= h@.take(i as int));
            assert(h@.take(i + 2).skip(i as int) =~= seq![c0, c1]);
            assert(seq![c0, c1].drop_last() =~= seq![c0]);
            assert(seq![c0].drop_last() =~= Seq::<u32>::empty());
            assert(seq![c0].last() == c0);
            assert(seq![c0, c1].last() == c1);
            assert(byte_len(Seq::<u32>::empty()) == 0);
            assert(byte_len(seq![c0]) == 1);
            assert(byte_len(seq![c0, c1]) == 2);
        }
        p = p + 1;
    }
    Ok(vals)
}

/// The color a string denotes, and whether parsing it panics.
fn analyze(s: &str) -> (r: (Option<Rgba>, bool))
    ensures
        r.1 == color_panics(s@),
        !r.1 ==> r.0 == parse_color_spec(s@),
{
    let t = trimmed(s);
    let l = lower_codes(&t);
    let nc = named(&l);
    if nc.is_some() {
        return (nc, false);
    }
    if l.len() == 0 || l[0] != 35 {
        return (None, false);
    }
    let mut h: Vec<u32> = Vec::new();
    let mut i: usize = 1;
    while i < l.len()
        invariant
            1 <= i <= l.len(),
            h@ == l@.subrange(1, i as int),
        decreases l.len() - i,
    {
        h.push(l[i]);
        i = i + 1;
        assert(h@ =~= l@.subrange(1, i as int));
    }
    assert(h@ =~= hex_part(l@));
    let b = byte_len_capped(&h);
    if b == 3 {
        if h.len() == 3 {
            match (hex_value_of(h[0]), hex_value_of(h[1]), hex_value_of(h[2])) {
                (Some(r), Some(g), Some(bl)) => {
                    let rgba = Rgba {
                        r: Channel { num: 17 * r, den: 255 },
                        g: Channel { num: 17 * g, den: 255 },
                        b: Channel { num: 17 * bl, den: 255 },
                        a: one_ch(),
                    };
                    return (Some(rgba), false);
                },
                _ => {
                    return (None, false);
                },
            }
        }
        (None, false)
    } else if b == 4 {
        if h.len() == 4 {
            match (hex_value_of(h[0]), hex_value_of(h[1]), hex_value_of(h[2]), hex_value_of(h[3])) {
                (Some(r), Some(g), Some(bl), Some(a)) => {
                    let rgba = Rgba {
                        r: Channel { num: 17 * r, den: 255 },
                        g: Channel { num: 17 * g, den: 255 },
                        b: Channel { num: 17 * bl, den: 255 },
                        a: Channel { num: 17 * a, den: 255 },
                    };
                    return (Some(rgba), false);
                },
                _ => {
                    return (None, false);
                },
            }
        }
        (None, false)
    } else if b == 6 || b == 8 {
        match parse_pairs(&h, b / 2) {
            Ok(vals) => {
                proof {
                    assert(pair_value(h@[0], h@[1]) == Some(vals@[0]));
                    assert(pair_value(h@[2], h@[3]) == Some(vals@[1]));
                    assert(pair_value(h@[4], h@[5]) == Some(vals@[2]));
                }
                let a = if b == 8 {
                    proof {
                        assert(pair_value(h@[6], h@[7]) == Some(vals@[3]));
                    }
                    Channel { num: vals[3], den: 255 }
                } else {
                    one_ch()
                };
                let rgba = Rgba {
                    r: Channel { num: vals[0], den: 255 },
                    g: Channel { num: vals[1], den: 255 },
                    b: Channel { num: vals[2], den: 255 },
                    a,
                };
                (Some(rgba), false)
            },
            Err(panics) => (None, panics),
        }
    } else {
        (None, false)
    }
}

/// Whether `parse_color_string(s)` would slice inside a multi-byte
/// character, which panics.
pub fn color_string_panics(s: &str) -> (b: bool)
    ensures
        b == color_panics(s@),
{
    analyze(s).1
}

/// Parse a CSS color string at compile time: `#RGB`, `#RGBA`, `#RRGGBB`,
/// `#RRGGBBAA`, or one of a few named colors, after trimming whitespace
/// and lowering ASCII case. Returns the four channels as exact fractions.
pub fn parse_color_string(s: &str) -> (r: Option<Rgba>)
    requires
        !color_panics(s@),
    ensures
        r == parse_color_spec(s@),
{
    analyze(s).0
}

} // verus!
