//! Expansion of the escape sequences of string literals.

use vstd::prelude::*;
use crate::error::{Error, ErrorView};
use crate::text::{chars_of, text_of};

verus! {

/// `char::from_u32` gives the character of a Unicode scalar value and
/// nothing for a surrogate or a number above `0x10FFFF`.
pub assume_specification[ char::from_u32 ](i: u32) -> (r: Option<char>)
    ensures
        r == (if is_scalar(i as nat) {
            Some(i as char)
        } else {
            None::<char>
        }),
;

/// Whether `c` is a hexadecimal digit, in either case.
pub open spec fn is_hex(c: char) -> bool {
    ('0' <= c <= '9') || ('a' <= c <= 'f') || ('A' <= c <= 'F')
}

/// The value of a hexadecimal digit.
pub open spec fn hex_digit(c: char) -> nat {
    if '0' <= c <= '9' {
        (c as nat - '0' as nat) as nat
    } else if 'a' <= c <= 'f' {
        (c as nat - 'a' as nat + 10) as nat
    } else {
        (c as nat - 'A' as nat + 10) as nat
    }
}

/// Whether every character of `d` is a hexadecimal digit.
pub open spec fn all_hex(d: Seq<char>) -> bool {
    forall|i: int| 0 <= i < d.len() ==> is_hex(#[trigger] d[i])
}

/// The number that the hexadecimal digits `d` write.
pub open spec fn hex_value(d: Seq<char>) -> nat
    decreases d.len(),
{
    if d.len() == 0 {
        0
    } else {
        16 * hex_value(d.drop_last()) + hex_digit(d.last())
    }
}

/// Whether `v` is a Unicode scalar value.
pub open spec fn is_scalar(v: nat) -> bool {
    v <= 0xD7FF || (0xE000 <= v <= 0x10FFFF)
}

/// The character that the hexadecimal digits `d` name, if they name one:
/// there must be a digit, nothing but digits, and a scalar value.
pub open spec fn code_point(d: Seq<char>) -> Option<char> {
    if d.len() > 0 && all_hex(d) && is_scalar(hex_value(d)) {
        Some(hex_value(d) as char)
    } else {
        None
    }
}

/// The position of the first `}` at or after `from`, or -1.
pub open spec fn first_close(s: Seq<char>, from: int) -> int
    decreases s.len() - from,
{
    if from < 0 || from >= s.len() {
        -1
    } else if s[from] == '}' {
        from
    } else {
        first_close(s, from + 1)
    }
}

/// The escape that begins with the backslash at `i`: the character it stands
/// for and the position after it, or nothing where it is cut short or
/// malformed. The forms are `\u{H..}`, `\uHHHH` and, in legacy mode,
/// `\xHH`. Outside legacy mode a backslash before `x` is no escape: it
/// stands for itself, and what follows it is read on as it is. A backslash
/// before any other character stands for that character.
pub open spec fn escape_at(s: Seq<char>, i: int, legacy: bool) -> Option<(char, int)> {
    if i + 1 >= s.len() {
        None
    } else if s[i + 1] == 'u' {
        if i + 2 >= s.len() {
            None
        } else if s[i + 2] == '{' {
            let close = first_close(s, i + 3);
            if close < 0 {
                None
            } else {
                match code_point(s.subrange(i + 3, close)) {
                    Some(c) => Some((c, close + 1)),
                    None => None,
                }
            }
        } else if i + 6 > s.len() {
            None
        } else {
            match code_point(s.subrange(i + 2, i + 6)) {
                Some(c) => Some((c, i + 6)),
                None => None,
            }
        }
    } else if s[i + 1] == 'x' && legacy {
        if i + 4 > s.len() {
            None
        } else {
            match code_point(s.subrange(i + 2, i + 4)) {
                Some(c) => Some((c, i + 4)),
                None => None,
            }
        }
    } else if s[i + 1] == 'x' {
        Some(('\\', i + 1))
    } else {
        Some((s[i + 1], i + 2))
    }
}

/// `p` before a text that may be missing.
pub open spec fn with_prefix(p: Seq<char>, r: Option<Seq<char>>) -> Option<Seq<char>> {
    match r {
        Some(t) => Some(p + t),
        None => None,
    }
}

/// The expansion of `s` from position `i` on, or nothing if an escape in
/// that part is malformed.
pub open spec fn unescaped_from(s: Seq<char>, i: int, legacy: bool) -> Option<Seq<char>>
    decreases s.len() - i,
{
    if i < 0 || i >= s.len() {
        Some(Seq::empty())
    } else if s[i] != '\\' {
        with_prefix(seq![s[i]], unescaped_from(s, i + 1, legacy))
    } else {
        match escape_at(s, i, legacy) {
            Some((c, next)) => if i < next <= s.len() {
                with_prefix(seq![c], unescaped_from(s, next, legacy))
            } else {
                None
            },
            None => None,
        }
    }
}

/// The expansion of the whole of `s`.
pub open spec fn unescaped(s: Seq<char>, legacy: bool) -> Option<Seq<char>> {
    unescaped_from(s, 0, legacy)
}

/// The value of a hexadecimal digit, if `c` is one.
pub fn hex_digit_value(c: char) -> (r: Option<u32>)
    ensures
        r == (if is_hex(c) {
            Some(hex_digit(c) as u32)
        } else {
            None::<u32>
        }),
{
    if '0' <= c && c <= '9' {
        Some(c as u32 - '0' as u32)
    } else if 'a' <= c && c <= 'f' {
        Some(c as u32 - 'a' as u32 + 10)
    } else if 'A' <= c && c <= 'F' {
        Some(c as u32 - 'A' as u32 + 10)
    } else {
        None
    }
}

/// Reads `v[lo..hi]` as hexadecimal digits that name a character.
pub fn read_code_point(v: &Vec<char>, lo: usize, hi: usize) -> (r: Option<char>)
    requires
        lo <= hi <= v.len(),
    ensures
        r == code_point(v@.subrange(lo as int, hi as int)),
{
    let ghost d = v@.subrange(lo as int, hi as int);
    let mut acc: u32 = 0;
    let mut big: bool = false;
    let mut k: usize = lo;
    while k < hi
        invariant
            lo <= k <= hi <= v.len(),
            d == v@.subrange(lo as int, hi as int),
            all_hex(v@.subrange(lo as int, k as int)),
            !big ==> acc == hex_value(v@.subrange(lo as int, k as int)) && acc <= 0x10FFFF,
            big ==> hex_value(v@.subrange(lo as int, k as int)) > 0x10FFFF,
        decreases hi - k,
    {
        let ghost before = v@.subrange(lo as int, k as int);
        let ghost after = v@.subrange(lo as int, k + 1);
        match hex_digit_value(v[k]) {
            None => {
                assert(d[k - lo] == v@[k as int]);
                return None;
            },
            Some(x) => {
                proof {
                    assert(after.drop_last() =~= before);
                    assert(after.last() == v@[k as int]);
                    assert forall|j: int| 0 <= j < after.len() implies is_hex(
                        #[trigger] after[j],
                    ) by {
                        if j < after.len() - 1 {
                            assert(after[j] == before[j]);
                        }
                    }
                }
                if !big {
                    let n: u32 = acc * 16 + x;
                    if n > 0x10FFFF {
                        big = true;
                    } else {
                        acc = n;
                    }
                }
            },
        }
        k += 1;
    }
    if hi == lo || big {
        None
    } else {
        char::from_u32(acc)
    }
}

/// Moving a character from the front of what follows to the end of what
/// precedes changes nothing.
proof fn lemma_push_prefix(out: Seq<char>, c: char, r: Option<Seq<char>>)
    ensures
        with_prefix(out, with_prefix(seq![c], r)) == with_prefix(out.push(c), r),
{
    if let Some(t) = r {
        assert(out + (seq![c] + t) =~= out.push(c) + t);
    }
}

/// Expands the escape sequences of a string literal: `\u{H..}` with any
/// number of hexadecimal digits, `\uHHHH` with exactly four, and, only in
/// legacy mode, `\xHH`. Outside legacy mode `\x` is passed through as it
/// is, backslash included. A backslash before any other character is
/// dropped and the character kept. An escape that is cut short, empty, not
/// hexadecimal or not a scalar value gives `MalformedConstant` with the literal.
pub fn unicode_unescape(s: &str, legacy: bool) -> (r: Result<String, Error>)
    ensures
        match unescaped(s@, legacy) {
            Some(t) => r is Ok && r->Ok_0@ == t,
            None => r is Err && r->Err_0@ == ErrorView::MalformedConstant(s@),
        },
{
    let v = chars_of(s);
    let mut out: Vec<char> = Vec::new();
    let mut i: usize = 0;
    assert(with_prefix(out@, unescaped_from(v@, 0, legacy)) == unescaped(v@, legacy)) by {
        if let Some(t) = unescaped_from(v@, 0, legacy) {
            assert(out@ + t =~= t);
        }
    }
    while i < v.len()
        invariant
            i <= v.len(),
            v@ == s@,
            with_prefix(out@, unescaped_from(v@, i as int, legacy)) == unescaped(v@, legacy),
        decreases v.len() - i,
    {
        let c = v[i];
        if c != '\\' {
            proof {
                lemma_push_prefix(out@, c, unescaped_from(v@, i + 1, legacy));
            }
            out.push(c);
            i += 1;
        } else {
            let mut found: Option<(char, usize)> = None;
            if i + 1 < v.len() {
                let e = v[i + 1];
                if e == 'u' {
                    if i + 2 < v.len() {
                        if v[i + 2] == '{' {
                            let mut j: usize = i + 3;
                            while j < v.len() && v[j] != '}'
                                invariant
                                    i + 3 <= j <= v.len(),
                                    first_close(v@, i + 3) == first_close(v@, j as int),
                                decreases v.len() - j,
                            {
                                j += 1;
                            }
                            if j < v.len() {
                                match read_code_point(&v, i + 3, j) {
                                    Some(ch) => {
                                        found = Some((ch, j + 1));
                                    },
                                    None => {},
                                }
                            }
                        } else if v.len() - i >= 6 {
                            match read_code_point(&v, i + 2, i + 6) {
                                Some(ch) => {
                                    found = Some((ch, i + 6));
                                },
                                None => {},
                            }
                        }
                    }
                } else if e == 'x' && legacy {
                    if v.len() - i >= 4 {
                        match read_code_point(&v, i + 2, i + 4) {
                            Some(ch) => {
                                found = Some((ch, i + 4));
                            },
                            None => {},
                        }
                    }
                } else if e == 'x' {
                    found = Some(('\\', i + 1));
                } else {
                    found = Some((e, i + 2));
                }
            }
            assert(match escape_at(v@, i as int, legacy) {
                Some((ch, next)) => found == Some((ch, next as usize)) && i < next <= v.len(),
                None => found is None,
            });
            match found {
                Some((ch, next)) => {
                    proof {
                        lemma_push_prefix(out@, ch, unescaped_from(v@, next as int, legacy));
                    }
                    out.push(ch);
                    i = next;
                },
                None => {
                    return Err(Error::MalformedConstant(text_of(&v)));
                },
            }
        }
    }
    assert(out@ + Seq::<char>::empty() =~= out@);
    Ok(text_of(&out))
}

/// Up to a `}` that no hexadecimal digit stands before, the first `}` is that one.
proof fn lemma_first_close(s: Seq<char>, from: int, close: int)
    requires
        0 <= from <= close < s.len(),
        s[close] == '}',
        forall|j: int| from <= j < close ==> is_hex(#[trigger] s[j]),
    ensures
        first_close(s, from) == close,
    decreases close - from,
{
    if from < close {
        assert(is_hex(s[from]));
        lemma_first_close(s, from + 1, close);
    }
}

/// The first `}` of a part of a text is that of the text, moved.
proof fn lemma_first_close_shift(s: Seq<char>, k: int, j: int)
    requires
        0 <= k <= s.len(),
        0 <= j,
    ensures
        ({
            let t = s.subrange(k, s.len() as int);
            if first_close(t, j) < 0 {
                first_close(s, k + j) < 0
            } else {
                first_close(s, k + j) == first_close(t, j) + k
            }
        }),
    decreases s.len() - k - j,
{
    let t = s.subrange(k, s.len() as int);
    if j < t.len() {
        assert(t[j] == s[k + j]);
        if t[j] != '}' {
            lemma_first_close_shift(s, k, j + 1);
        }
    }
}

/// What a text expands to from a position on depends on nothing before
/// that position.
pub proof fn lemma_unescaped_suffix(s: Seq<char>, k: int, i: int, legacy: bool)
    requires
        0 <= k <= s.len(),
        0 <= i,
    ensures
        unescaped_from(s, k + i, legacy) == unescaped_from(
            s.subrange(k, s.len() as int),
            i,
            legacy,
        ),
    decreases s.len() - k - i,
{
    let t = s.subrange(k, s.len() as int);
    if i < t.len() {
        assert(t[i] == s[k + i]);
        if t[i] != '\\' {
            lemma_unescaped_suffix(s, k, i + 1, legacy);
        } else {
            if i + 1 < t.len() {
                assert(t[i + 1] == s[k + i + 1]);
                if t[i + 1] == 'u' {
                    if i + 2 < t.len() {
                        assert(t[i + 2] == s[k + i + 2]);
                        if t[i + 2] == '{' {
                            lemma_first_close_shift(s, k, i + 3);
                            let close = first_close(t, i + 3);
                            if close >= 0 {
                                lemma_first_close_bounds(t, i + 3);
                                assert(t.subrange(i + 3, close) =~= s.subrange(
                                    k + i + 3,
                                    k + close,
                                ));
                                lemma_unescaped_suffix(s, k, close + 1, legacy);
                            }
                        } else if i + 6 <= t.len() {
                            assert(t.subrange(i + 2, i + 6) =~= s.subrange(k + i + 2, k + i + 6));
                            lemma_unescaped_suffix(s, k, i + 6, legacy);
                        }
                    }
                } else if t[i + 1] == 'x' && legacy {
                    if i + 4 <= t.len() {
                        assert(t.subrange(i + 2, i + 4) =~= s.subrange(k + i + 2, k + i + 4));
                        lemma_unescaped_suffix(s, k, i + 4, legacy);
                    }
                } else if t[i + 1] == 'x' {
                    lemma_unescaped_suffix(s, k, i + 1, legacy);
                } else {
                    lemma_unescaped_suffix(s, k, i + 2, legacy);
                }
            }
        }
    }
}

/// A `}` that is found lies in the text, at or after where the search began.
proof fn lemma_first_close_bounds(s: Seq<char>, from: int)
    requires
        0 <= from,
    ensures
        first_close(s, from) >= 0 ==> from <= first_close(s, from) < s.len(),
        first_close(s, from) >= -1,
    decreases s.len() - from,
{
    if from < s.len() && s[from] != '}' {
        lemma_first_close_bounds(s, from + 1);
    }
}

/// The braced escape with the digits `d`.
pub open spec fn braced(d: Seq<char>) -> Seq<char> {
    seq!['\\', 'u', '{'] + d + seq!['}']
}

/// A text that begins with a braced escape expands to the character
/// whose code point the digits write, and then to what the rest expands to.
pub proof fn lemma_braced_escape_then(d: Seq<char>, rest: Seq<char>, legacy: bool)
    requires
        d.len() > 0,
        all_hex(d),
        is_scalar(hex_value(d)),
    ensures
        unescaped(braced(d) + rest, legacy) == with_prefix(
            seq![hex_value(d) as char],
            unescaped(rest, legacy),
        ),
        (hex_value(d) as char) as nat == hex_value(d),
{
    let s = braced(d) + rest;
    let close: int = d.len() as int + 3;
    assert forall|j: int| 3 <= j < close implies is_hex(#[trigger] s[j]) by {
        assert(s[j] == d[j - 3]);
    }
    assert(s[close] == '}');
    lemma_first_close(s, 3, close);
    assert(s.subrange(3, close) =~= d);
    let c = hex_value(d) as char;
    assert(escape_at(s, 0, legacy) == Some((c, close + 1)));
    lemma_unescaped_suffix(s, close + 1, 0, legacy);
    assert(s.subrange(close + 1, s.len() as int) =~= rest);
}

/// A text that begins with an escape of four digits expands to the
/// character whose code point the digits write, and then to what the rest
/// expands to.
pub proof fn lemma_fixed_escape_then(d: Seq<char>, rest: Seq<char>, legacy: bool)
    requires
        d.len() == 4,
        all_hex(d),
        is_scalar(hex_value(d)),
    ensures
        unescaped(seq!['\\', 'u'] + d + rest, legacy) == with_prefix(
            seq![hex_value(d) as char],
            unescaped(rest, legacy),
        ),
        (hex_value(d) as char) as nat == hex_value(d),
{
    let s = seq!['\\', 'u'] + d + rest;
    assert(s[2] == d[0]);
    assert(is_hex(d[0]));
    assert(s.subrange(2, 6) =~= d);
    let c = hex_value(d) as char;
    assert(escape_at(s, 0, legacy) == Some((c, 6int)));
    lemma_unescaped_suffix(s, 6, 0, legacy);
    assert(s.subrange(6, s.len() as int) =~= rest);
}

/// The braced escapes with the given digits, one after the other.
pub open spec fn braced_all(ds: Seq<Seq<char>>) -> Seq<char>
    decreases ds.len(),
{
    if ds.len() == 0 {
        Seq::empty()
    } else {
        braced(ds[0]) + braced_all(ds.subrange(1, ds.len() as int))
    }
}

/// The characters whose code points the given digits write.
pub open spec fn decoded(ds: Seq<Seq<char>>) -> Seq<char>
    decreases ds.len(),
{
    if ds.len() == 0 {
        Seq::empty()
    } else {
        seq![hex_value(ds[0]) as char] + decoded(ds.subrange(1, ds.len() as int))
    }
}

/// A text of braced escapes alone expands to the characters whose code
/// points the escapes' digits write, one for one.
pub proof fn lemma_braced_escapes(ds: Seq<Seq<char>>, legacy: bool)
    requires
        forall|i: int|
            0 <= i < ds.len() ==> (#[trigger] ds[i]).len() > 0 && all_hex(ds[i]) && is_scalar(
                hex_value(ds[i]),
            ),
    ensures
        unescaped(braced_all(ds), legacy) == Some(decoded(ds)),
    decreases ds.len(),
{
    if ds.len() > 0 {
        let rest = ds.subrange(1, ds.len() as int);
        assert forall|i: int| 0 <= i < rest.len() implies (#[trigger] rest[i]).len() > 0
            && all_hex(rest[i]) && is_scalar(hex_value(rest[i])) by {
            assert(rest[i] == ds[i + 1]);
        }
        lemma_braced_escapes(rest, legacy);
        lemma_braced_escape_then(ds[0], braced_all(rest), legacy);
    }
}

/// In legacy mode a text that begins with `\xHH` expands to the
/// character whose code point the two digits write, and then to what the
/// rest expands to.
pub proof fn lemma_legacy_escape_then(h1: char, h2: char, rest: Seq<char>)
    requires
        is_hex(h1),
        is_hex(h2),
    ensures
        unescaped(seq!['\\', 'x', h1, h2] + rest, true) == with_prefix(
            seq![(16 * hex_digit(h1) + hex_digit(h2)) as char],
            unescaped(rest, true),
        ),
{
    let s = seq!['\\', 'x', h1, h2] + rest;
    let d = s.subrange(2, 4);
    assert(d =~= seq![h1, h2]);
    assert(d.drop_last() =~= seq![h1]);
    assert(d.drop_last().drop_last() =~= Seq::<char>::empty());
    reveal_with_fuel(hex_value, 3);
    assert(hex_value(d) == 16 * hex_digit(h1) + hex_digit(h2));
    let c = hex_value(d) as char;
    assert(escape_at(s, 0, true) == Some((c, 4int)));
    lemma_unescaped_suffix(s, 4, 0, true);
    assert(s.subrange(4, s.len() as int) =~= rest);
}

/// Outside legacy mode the legacy form is no escape: a text that begins
/// with `\x` expands to the backslash and the `x` as they are, and then
/// to what the rest expands to. It is neither decoded nor refused.
pub proof fn lemma_legacy_form_passes_through(rest: Seq<char>)
    ensures
        unescaped(seq!['\\', 'x'] + rest, false) == with_prefix(
            seq!['\\', 'x'],
            unescaped(rest, false),
        ),
{
    let s = seq!['\\', 'x'] + rest;
    assert(escape_at(s, 0, false) == Some(('\\', 1int)));
    assert(s[1] == 'x');
    lemma_unescaped_suffix(s, 2, 0, false);
    assert(s.subrange(2, s.len() as int) =~= rest);
    assert(unescaped_from(s, 1, false) == with_prefix(seq!['x'], unescaped_from(s, 2, false)));
    if let Some(t) = unescaped(rest, false) {
        assert(seq!['\\'] + (seq!['x'] + t) =~= seq!['\\', 'x'] + t);
    }
}

/// Outside legacy mode `\xHH` alone stays as it is.
pub proof fn lemma_legacy_form_alone(h1: char, h2: char)
    requires
        h1 != '\\',
        h2 != '\\',
    ensures
        unescaped(seq!['\\', 'x', h1, h2], false) == Some(seq!['\\', 'x', h1, h2]),
{
    let rest = seq![h1, h2];
    assert(seq!['\\', 'x'] + rest =~= seq!['\\', 'x', h1, h2]);
    lemma_legacy_form_passes_through(rest);
    reveal_with_fuel(unescaped_from, 4);
    assert(unescaped_from(rest, 2, false) == Some(Seq::<char>::empty()));
    assert(unescaped_from(rest, 1, false) == Some(seq![h2] + Seq::<char>::empty()));
    assert(unescaped(rest, false) == Some(seq![h1] + (seq![h2] + Seq::<char>::empty())));
    assert(seq!['\\', 'x'] + (seq![h1] + (seq![h2] + Seq::<char>::empty())) =~= seq![
        '\\',
        'x',
        h1,
        h2,
    ]);
}

} // verus!
