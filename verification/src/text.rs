//! Characters and strings: the parts of std the library uses on text, and
//! the number parsing and formatting it does itself.

use vstd::prelude::*;

verus! {

/// Whether `c` has the Unicode Alphabetic property, as `char::is_alphabetic` reports it.
pub uninterp spec fn alphabetic(c: char) -> bool;

/// The characters of the Unicode uppercase mapping of `c`, as `char::to_uppercase` yields them.
pub uninterp spec fn uppercase(c: char) -> Seq<char>;

/// Appends `c` to `s` with `String::push`, which adds the character at the end.
#[verifier::external_body]
pub(crate) fn push_char(s: &mut String, c: char)
    ensures
        final(s)@ == old(s)@.push(c),
{
    s.push(c)
}

/// `char::is_alphabetic`: whether `c` has the Unicode Alphabetic property.
/// The property's table is not restated here; its result is named by `alphabetic`.
#[verifier::external_body]
pub(crate) fn char_is_alphabetic(c: char) -> (r: bool)
    ensures
        r == alphabetic(c),
{
    c.is_alphabetic()
}

/// `char::to_uppercase`: the characters of the Unicode uppercase mapping of `c`,
/// one or more of them as its documentation says. The mapping's table is not
/// restated here; the result is named by `uppercase`.
#[verifier::external_body]
pub(crate) fn char_to_uppercase(c: char) -> (r: Vec<char>)
    ensures
        r@ == uppercase(c),
        r@.len() >= 1,
{
    c.to_uppercase().collect()
}

/// Whether `c` has the Unicode White_Space property.
pub open spec fn spec_is_whitespace(c: char) -> bool {
    let n = c as u32;
    ||| 0x09 <= n <= 0x0d
    ||| n == 0x20
    ||| n == 0x85
    ||| n == 0xa0
    ||| n == 0x1680
    ||| 0x2000 <= n <= 0x200a
    ||| n == 0x2028
    ||| n == 0x2029
    ||| n == 0x202f
    ||| n == 0x205f
    ||| n == 0x3000
}

/// Whether `c` is white space, as `char::is_whitespace` decides.
pub fn is_whitespace(c: char) -> (r: bool)
    ensures
        r == spec_is_whitespace(c),
{
    let n = c as u32;
    (0x09 <= n && n <= 0x0d) || n == 0x20 || n == 0x85 || n == 0xa0 || n == 0x1680
        || (0x2000 <= n && n <= 0x200a) || n == 0x2028 || n == 0x2029 || n == 0x202f
        || n == 0x205f || n == 0x3000
}

/// The value of `c` as a digit in base `radix`, as `char::to_digit` gives it.
pub open spec fn digit_of(c: char, radix: nat) -> Option<nat> {
    let n = c as u32;
    let v: int = if 0x30 <= n <= 0x39 {
        n - 0x30
    } else if 0x61 <= n <= 0x7a {
        n - 0x61 + 10
    } else if 0x41 <= n <= 0x5a {
        n - 0x41 + 10
    } else {
        radix as int
    };
    if v < radix { Some(v as nat) } else { None }
}

/// Whether `c` is a digit in base `radix`, as `char::is_digit` decides.
pub fn is_digit(c: char, radix: u32) -> (r: bool)
    requires
        2 <= radix <= 36,
    ensures
        r == (digit_of(c, radix as nat) is Some),
{
    to_digit(c, radix).is_some()
}

/// The value of `c` as a digit in base `radix`, as `char::to_digit` gives it.
pub fn to_digit(c: char, radix: u32) -> (r: Option<u32>)
    requires
        2 <= radix <= 36,
    ensures
        r matches Some(d) ==> digit_of(c, radix as nat) == Some(d as nat),
        r is None ==> digit_of(c, radix as nat) is None,
{
    let n = c as u32;
    let v: u32 = if 0x30 <= n && n <= 0x39 {
        n - 0x30
    } else if 0x61 <= n && n <= 0x7a {
        n - 0x61 + 10
    } else if 0x41 <= n && n <= 0x5a {
        n - 0x41 + 10
    } else {
        radix
    };
    if v < radix { Some(v) } else { None }
}

/// The number that the digits `s` write in base `radix`; 0 for no digits.
pub open spec fn digits_value(s: Seq<char>, radix: nat) -> Option<nat>
    decreases s.len(),
{
    if s.len() == 0 {
        Some(0)
    } else {
        match (digits_value(s.drop_last(), radix), digit_of(s.last(), radix)) {
            (Some(a), Some(d)) => Some(a * radix + d),
            _ => None,
        }
    }
}

/// The number that `s` writes in base `radix`, as `from_str_radix` reads an
/// unsigned number: an optional `+`, then one digit or more.
pub open spec fn spec_parse_uint(s: Seq<char>, radix: nat) -> Option<nat> {
    let body = if s.len() > 0 && s[0] == '+' { s.drop_first() } else { s };
    if body.len() == 0 { None } else { digits_value(body, radix) }
}

/// The result of reading `s` as a `usize` in base `radix`: the number where
/// it is one that fits.
pub open spec fn spec_parse_usize(s: Seq<char>, radix: nat) -> Option<usize> {
    match spec_parse_uint(s, radix) {
        Some(v) => if v <= usize::MAX { Some(v as usize) } else { None },
        None => None,
    }
}

/// The result of reading `s` as a `u32` in base `radix`.
pub open spec fn spec_parse_u32(s: Seq<char>, radix: nat) -> Option<u32> {
    match spec_parse_uint(s, radix) {
        Some(v) => if v <= u32::MAX { Some(v as u32) } else { None },
        None => None,
    }
}

proof fn lemma_digits_prefix(s: Seq<char>, radix: nat, j: int)
    requires
        radix >= 1,
        0 <= j <= s.len(),
        digits_value(s, radix) is Some,
    ensures
        digits_value(s.take(j), radix) is Some,
        digits_value(s.take(j), radix).unwrap() <= digits_value(s, radix).unwrap(),
    decreases s.len(),
{
    if j == s.len() {
        assert(s.take(j) == s);
    } else {
        let t = s.drop_last();
        lemma_digits_prefix(t, radix, j);
        assert(t.take(j) == s.take(j));
        let a = digits_value(t, radix).unwrap();
        assert(a <= a * radix) by (nonlinear_arith)
            requires
                radix >= 1,
        ;
    }
}

proof fn lemma_digits_step(s: Seq<char>, radix: nat, i: int)
    requires
        0 <= i < s.len(),
    ensures
        digits_value(s.take(i + 1), radix) == (match (digits_value(s.take(i), radix), digit_of(s[i], radix)) {
            (Some(a), Some(d)) => Some(a * radix + d),
            _ => None,
        }),
{
    let t = s.take(i + 1);
    assert(t.drop_last() == s.take(i));
    assert(t.last() == s[i]);
}

/// Reads the digits of `s` from char `start` on as a number in base `radix`,
/// with an optional leading `+`; `None` where they are not such a number or
/// where it is above `usize::MAX`.
pub fn parse_usize_from(s: &str, start: usize, radix: u32) -> (r: Option<usize>)
    requires
        2 <= radix <= 36,
        start <= s@.len(),
    ensures
        r == spec_parse_usize(s@.skip(start as int), radix as nat),
{
    let ghost full = s@.skip(start as int);
    let len = s.unicode_len();
    let mut i = start;
    if i < len && s.get_char(i) == '+' {
        i = i + 1;
    }
    let ghost body = s@.skip(i as int);
    assert(body == (if full.len() > 0 && full[0] == '+' { full.drop_first() } else { full }));
    if i == len {
        return None;
    }
    let begin = i;
    let mut acc: usize = 0;
    assert(body.take(0) =~= Seq::<char>::empty());
    while i < len
        invariant
            len == s@.len(),
            begin <= i <= len,
            begin < len,
            body == s@.skip(begin as int),
            body == (if full.len() > 0 && full[0] == '+' { full.drop_first() } else { full }),
            body.len() > 0,
            full == s@.skip(start as int),
            2 <= radix <= 36,
            digits_value(body.take(i - begin), radix as nat) == Some(acc as nat),
        decreases len - i,
    {
        let c = s.get_char(i);
        proof {
            lemma_digits_step(body, radix as nat, i - begin);
            assert(body[i - begin] == c);
        }
        match to_digit(c, radix) {
            None => {
                proof {
                    lemma_digits_none_extends(body, radix as nat, i - begin + 1);
                }
                return None;
            }
            Some(d) => {
                let next = acc.checked_mul(radix as usize);
                match next {
                    None => {
                        proof {
                            assert(acc * radix > usize::MAX);
                            lemma_digits_over(body, radix as nat, i - begin + 1);
                        }
                        return None;
                    }
                    Some(m) => {
                        match m.checked_add(d as usize) {
                            None => {
                                proof {
                                    lemma_digits_over(body, radix as nat, i - begin + 1);
                                }
                                return None;
                            }
                            Some(v) => {
                                acc = v;
                            }
                        }
                    }
                }
            }
        }
        i = i + 1;
    }
    assert(body.take(len - begin) == body);
    Some(acc)
}

proof fn lemma_digits_none_extends(s: Seq<char>, radix: nat, j: int)
    requires
        radix >= 1,
        0 <= j <= s.len(),
        digits_value(s.take(j), radix) is None,
    ensures
        digits_value(s, radix) is None,
{
    if digits_value(s, radix) is Some {
        lemma_digits_prefix(s, radix, j);
    }
}

proof fn lemma_digits_over(s: Seq<char>, radix: nat, j: int)
    requires
        radix >= 1,
        0 <= j <= s.len(),
        digits_value(s.take(j), radix) is None || digits_value(s.take(j), radix).unwrap() > usize::MAX,
    ensures
        digits_value(s, radix) is None || digits_value(s, radix).unwrap() > usize::MAX,
{
    if digits_value(s, radix) is Some {
        lemma_digits_prefix(s, radix, j);
    }
}

/// Reads all of `s` as a number in base `radix`, as `usize::from_str_radix` does.
pub fn parse_usize(s: &str, radix: u32) -> (r: Option<usize>)
    requires
        2 <= radix <= 36,
    ensures
        r == spec_parse_usize(s@, radix as nat),
{
    assert(s@.skip(0) == s@);
    parse_usize_from(s, 0, radix)
}

/// Reads all of `s` as a number in base `radix`, as `u32::from_str_radix` does.
pub fn parse_u32(s: &str, radix: u32) -> (r: Option<u32>)
    requires
        2 <= radix <= 36,
    ensures
        r == spec_parse_u32(s@, radix as nat),
{
    match parse_usize(s, radix) {
        Some(v) => if v <= 0xffff_ffff { Some(v as u32) } else { None },
        None => {
            proof {
                lemma_u32_fits_usize(s@, radix as nat);
            }
            None
        }
    }
}

/// Reads the chars of `s` from char `start` on as a `u32` in base `radix`.
pub fn parse_u32_from(s: &str, start: usize, radix: u32) -> (r: Option<u32>)
    requires
        2 <= radix <= 36,
        start <= s@.len(),
    ensures
        r == spec_parse_u32(s@.skip(start as int), radix as nat),
{
    match parse_usize_from(s, start, radix) {
        Some(v) => if v <= 0xffff_ffff { Some(v as u32) } else { None },
        None => {
            proof {
                lemma_u32_fits_usize(s@.skip(start as int), radix as nat);
            }
            None
        }
    }
}

proof fn lemma_u32_fits_usize(s: Seq<char>, radix: nat)
    requires
        spec_parse_usize(s, radix) is None,
    ensures
        spec_parse_u32(s, radix) is None,
{
    assert(u32::MAX <= usize::MAX);
}

/// A number as the SVD file writes it: hexadecimal after `0x`, else decimal,
/// read as a `u32`.
pub open spec fn spec_parse_num(s: Seq<char>) -> Option<u32> {
    if s.len() >= 2 && s[0] == '0' && s[1] == 'x' {
        spec_parse_u32(s.skip(2), 16)
    } else {
        spec_parse_u32(s, 10)
    }
}

/// A number as the SVD file writes it, read as a `usize`.
pub open spec fn spec_parse_num_usize(s: Seq<char>) -> Option<usize> {
    if s.len() >= 2 && s[0] == '0' && s[1] == 'x' {
        spec_parse_usize(s.skip(2), 16)
    } else {
        spec_parse_usize(s, 10)
    }
}

/// Reads a number as the SVD file writes it, as a `u32` (see `spec_parse_num`).
pub fn read_num_u32(s: &str) -> (r: Option<u32>)
    ensures
        r == spec_parse_num(s@),
{
    if s.unicode_len() >= 2 && s.get_char(0) == '0' && s.get_char(1) == 'x' {
        parse_u32_from(s, 2, 16)
    } else {
        parse_u32(s, 10)
    }
}

/// Reads a number as the SVD file writes it, as a `usize`.
pub fn read_num_usize(s: &str) -> (r: Option<usize>)
    ensures
        r == spec_parse_num_usize(s@),
{
    if s.unicode_len() >= 2 && s.get_char(0) == '0' && s.get_char(1) == 'x' {
        parse_usize_from(s, 2, 16)
    } else {
        parse_usize(s, 10)
    }
}

/// The decimal digits of `n`, without leading zeros; "0" for zero.
pub open spec fn spec_decimal(n: nat) -> Seq<char>
    decreases n,
{
    if n < 10 {
        seq![((n + 0x30) as u32) as char]
    } else {
        spec_decimal(n / 10).push((((n % 10) + 0x30) as u32) as char)
    }
}

/// The decimal form of `n`, as `to_string` writes it.
pub fn decimal(n: usize) -> (s: String)
    ensures
        s@ == spec_decimal(n as nat),
    decreases n,
{
    if n < 10 {
        let mut s = String::new();
        push_char(&mut s, digit_char(n));
        s
    } else {
        let mut s = decimal(n / 10);
        push_char(&mut s, digit_char(n % 10));
        s
    }
}

/// The char of a hexadecimal digit: `0`-`9`, then `a`-`f`.
pub open spec fn hex_digit(d: nat) -> char {
    if d < 10 {
        ((d + 0x30) as u32) as char
    } else {
        ((d - 10 + 0x61) as u32) as char
    }
}

/// The lower-case hexadecimal digits of `n`, without leading zeros; "0" for zero.
pub open spec fn spec_hex(n: nat) -> Seq<char>
    decreases n,
{
    if n < 16 {
        seq![hex_digit(n)]
    } else {
        spec_hex(n / 16).push(hex_digit(n % 16))
    }
}

/// The lower-case hexadecimal form of `n`, as `{:x}` writes it.
pub fn hex(n: u64) -> (s: String)
    ensures
        s@ == spec_hex(n as nat),
    decreases n,
{
    if n < 16 {
        let mut s = String::new();
        push_char(&mut s, hex_digit_char(n));
        s
    } else {
        let mut s = hex(n / 16);
        push_char(&mut s, hex_digit_char(n % 16));
        s
    }
}

fn hex_digit_char(d: u64) -> (c: char)
    requires
        d < 16,
    ensures
        c == hex_digit(d as nat),
{
    let c: char = if d == 0 { '0' } else if d == 1 { '1' } else if d == 2 { '2' } else if d == 3 { '3' }
        else if d == 4 { '4' } else if d == 5 { '5' } else if d == 6 { '6' } else if d == 7 { '7' }
        else if d == 8 { '8' } else if d == 9 { '9' } else if d == 10 { 'a' } else if d == 11 { 'b' }
        else if d == 12 { 'c' } else if d == 13 { 'd' } else if d == 14 { 'e' } else { 'f' };
    c
}

fn digit_char(d: usize) -> (c: char)
    requires
        d < 10,
    ensures
        c == ((d + 0x30) as u32) as char,
{
    let c: char = if d == 0 { '0' } else if d == 1 { '1' } else if d == 2 { '2' } else if d == 3 { '3' }
        else if d == 4 { '4' } else if d == 5 { '5' } else if d == 6 { '6' } else if d == 7 { '7' }
        else if d == 8 { '8' } else { '9' };
    c
}

} // verus!

verus! {

/// `s` with every occurrence of `pat`, taken from left to right without
/// overlap, replaced by `rep`, as `str::replace` does for a non-empty pattern.
pub open spec fn spec_replace(s: Seq<char>, pat: Seq<char>, rep: Seq<char>) -> Seq<char>
    recommends
        pat.len() > 0,
    decreases s.len(),
{
    if s.len() < pat.len() || pat.len() == 0 {
        s
    } else if s.take(pat.len() as int) == pat {
        rep + spec_replace(s.skip(pat.len() as int), pat, rep)
    } else {
        seq![s[0]] + spec_replace(s.drop_first(), pat, rep)
    }
}

/// Whether `pat` stands in `s` at char position `i`.
fn matches_at(s: &str, len: usize, i: usize, pat: &str) -> (r: bool)
    requires
        len == s@.len(),
        i + pat@.len() <= s@.len(),
    ensures
        r == (s@.skip(i as int).take(pat@.len() as int) == pat@),
{
    let n = pat.unicode_len();
    let mut j: usize = 0;
    while j < n
        invariant
            n == pat@.len(),
            len == s@.len(),
            i + n <= s@.len(),
            0 <= j <= n,
            forall|k: int| 0 <= k < j ==> #[trigger] s@[i + k] == pat@[k],
        decreases n - j,
    {
        if s.get_char(i + j) != pat.get_char(j) {
            assert(s@.skip(i as int).take(n as int)[j as int] == s@[i + j]);
            return false;
        }
        j = j + 1;
    }
    assert forall|k: int| 0 <= k < n implies #[trigger] s@.skip(i as int).take(n as int)[k] == pat@[k] by {
        assert(s@.skip(i as int).take(n as int)[k] == s@[i + k]);
    }
    assert(s@.skip(i as int).take(n as int) =~= pat@);
    true
}

/// `s` with every occurrence of `pat` replaced by `rep`, as `str::replace` does.
pub fn replace(s: &str, pat: &str, rep: &str) -> (r: String)
    requires
        pat@.len() > 0,
    ensures
        r@ == spec_replace(s@, pat@, rep@),
{
    let len = s.unicode_len();
    let n = pat.unicode_len();
    let mut out = String::new();
    let mut i: usize = 0;
    assert(s@.skip(0) == s@);
    while i < len
        invariant
            len == s@.len(),
            n == pat@.len(),
            n > 0,
            0 <= i <= len,
            out@ + spec_replace(s@.skip(i as int), pat@, rep@) == spec_replace(s@, pat@, rep@),
        decreases len - i,
    {
        let ghost rest = s@.skip(i as int);
        if n <= len - i && matches_at(s, len, i, pat) {
            let ghost before = out@;
            out.append(rep);
            proof {
                assert(rest.take(n as int) == pat@);
                assert(rest.skip(n as int) == s@.skip(i + n));
                let tail = spec_replace(s@.skip(i + n), pat@, rep@);
                assert(spec_replace(rest, pat@, rep@) == rep@ + tail);
                assert(before + (rep@ + tail) =~= out@ + tail);
            }
            i = i + n;
        } else {
            let ghost before = out@;
            let c = s.get_char(i);
            push_char(&mut out, c);
            proof {
                assert(rest[0] == c);
                assert(rest.drop_first() == s@.skip(i + 1));
                if rest.len() >= n {
                    assert(rest.take(n as int) != pat@);
                }
                let tail = spec_replace(s@.skip(i + 1), pat@, rep@);
                assert(spec_replace(rest, pat@, rep@) == seq![c] + tail);
                assert(before + (seq![c] + tail) =~= out@ + tail);
            }
            i = i + 1;
        }
    }
    proof {
        assert(s@.skip(len as int) =~= Seq::<char>::empty());
        assert(out@ + Seq::<char>::empty() == out@);
    }
    out
}

} // verus!

verus! {

/// Whether `a` and `b` hold the same characters.
pub fn str_eq(a: &str, b: &str) -> (r: bool)
    ensures
        r == (a@ == b@),
{
    let n = a.unicode_len();
    if n != b.unicode_len() {
        return false;
    }
    let mut i: usize = 0;
    while i < n
        invariant
            n == a@.len(),
            n == b@.len(),
            0 <= i <= n,
            forall|j: int| 0 <= j < i ==> a@[j] == b@[j],
        decreases n - i,
    {
        if a.get_char(i) != b.get_char(i) {
            return false;
        }
        i = i + 1;
    }
    assert(a@ =~= b@);
    true
}

} // verus!
