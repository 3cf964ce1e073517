//! Character-level helpers shared by the other modules: decimal and
//! hexadecimal rendering, decimal parsing, and searching in character
//! sequences.

use vstd::prelude::*;
use vstd::utf8::is_ascii_chars;

verus! {

/// Appends one character to a string.
///
/// Trusted wrapper of `String::push`: the string afterwards is the string
/// before with `c` at its end.
#[verifier::external_body]
pub(crate) fn push_char(s: &mut String, c: char)
    ensures
        final(s)@ == old(s)@.push(c),
{
    s.push(c)
}

/// What `str::to_lowercase` returns for a string (Unicode lowercase mapping).
pub uninterp spec fn spec_to_lowercase(s: Seq<char>) -> Seq<char>;

/// Trusted wrapper of `str::to_lowercase`; its result is named by
/// `spec_to_lowercase`, which depends on the characters of `s` alone.
#[verifier::external_body]
pub(crate) fn to_lowercase(s: &str) -> (r: String)
    ensures
        r@ == spec_to_lowercase(s@),
{
    s.to_lowercase()
}

/// Whether `c` has the Unicode `White_Space` property (the whitespace that
/// `str::trim` removes).
pub open spec fn is_white_space(c: char) -> bool {
    ||| ('\t' <= c && c <= '\r')
    ||| c == ' ' || c == '\u{85}' || c == '\u{a0}' || c == '\u{1680}'
    ||| ('\u{2000}' <= c && c <= '\u{200a}')
    ||| c == '\u{2028}' || c == '\u{2029}' || c == '\u{202f}' || c == '\u{205f}'
    ||| c == '\u{3000}'
}

/// `s` without its leading whitespace.
pub open spec fn trim_start(s: Seq<char>) -> Seq<char>
    decreases s.len(),
{
    if s.len() > 0 && is_white_space(s[0]) {
        trim_start(s.drop_first())
    } else {
        s
    }
}

/// `s` without its trailing whitespace.
pub open spec fn trim_end(s: Seq<char>) -> Seq<char>
    decreases s.len(),
{
    if s.len() > 0 && is_white_space(s.last()) {
        trim_end(s.drop_last())
    } else {
        s
    }
}

/// What `str::trim` returns for a string: leading and trailing whitespace
/// removed.
pub open spec fn spec_trim(s: Seq<char>) -> Seq<char> {
    trim_end(trim_start(s))
}

/// Trusted wrapper of `str::trim`: the string without its leading and
/// trailing `White_Space` characters.
#[verifier::external_body]
pub(crate) fn trim(s: &str) -> (r: &str)
    ensures
        r@ == spec_trim(s@),
{
    s.trim()
}

/// What `str::to_uppercase` returns for a string (Unicode uppercase mapping).
pub uninterp spec fn spec_to_uppercase(s: Seq<char>) -> Seq<char>;

/// The ASCII uppercase of a character: `a-z` become `A-Z`, others stay.
pub open spec fn ascii_upper(c: char) -> char {
    if 'a' <= c && c <= 'z' {
        ((c as int) - 32) as char
    } else {
        c
    }
}

/// The ASCII uppercase of each character.
pub open spec fn ascii_upper_seq(s: Seq<char>) -> Seq<char> {
    s.map_values(|c: char| ascii_upper(c))
}

/// Trusted wrapper of `str::to_uppercase`; its result is named by
/// `spec_to_uppercase`. On ASCII text the Unicode uppercase mapping is the
/// ASCII one: `a-z` become `A-Z`, every other character stays.
#[verifier::external_body]
pub(crate) fn to_uppercase(s: &str) -> (r: String)
    ensures
        r@ == spec_to_uppercase(s@),
        is_ascii_chars(s@) ==> r@ == ascii_upper_seq(s@),
{
    s.to_uppercase()
}

/// What `char::is_alphanumeric` answers for a character (Unicode
/// `Alphabetic` or `Numeric`).
pub uninterp spec fn spec_is_alphanumeric(c: char) -> bool;

/// Trusted wrapper of `char::is_alphanumeric`; its result is named by
/// `spec_is_alphanumeric`.
#[verifier::external_body]
pub(crate) fn is_alphanumeric(c: char) -> (r: bool)
    ensures
        r == spec_is_alphanumeric(c),
{
    c.is_alphanumeric()
}

/// The characters of `s`, in order.
pub fn chars_of(s: &str) -> (r: Vec<char>)
    ensures
        r@ == s@,
{
    let mut v: Vec<char> = Vec::new();
    for c in it: s.chars()
        invariant
            v@ == it.seq().take(it.index() as int),
    {
        v.push(c);
    }
    v
}

/// Appends the characters of `cs` to `s`.
pub fn push_chars(s: &mut String, cs: &[char])
    ensures
        final(s)@ == old(s)@ + cs@,
{
    let ghost start = s@;
    for i in 0..cs.len()
        invariant
            s@ == start + cs@.take(i as int),
    {
        push_char(s, cs[i]);
        assert(cs@.take(i + 1) =~= cs@.take(i as int).push(cs@[i as int]));
    }
    assert(cs@.take(cs@.len() as int) =~= cs@);
}

/// The string made of the characters of `cs`.
pub fn string_from_chars(cs: &[char]) -> (r: String)
    ensures
        r@ == cs@,
{
    let mut s = String::new();
    push_chars(&mut s, cs);
    assert(s@ =~= cs@);
    s
}

/// The character of an ASCII code (`code` < 128).
pub open spec fn ascii(code: int) -> char {
    code as char
}

/// The decimal digit character of `d` (< 10).
pub open spec fn digit_char(d: nat) -> char {
    ascii(48 + d as int)
}

/// The lowercase hexadecimal digit character of `d` (< 16).
pub open spec fn hex_digit(d: nat) -> char {
    if d < 10 {
        ascii(48 + d as int)
    } else {
        ascii(87 + d as int)
    }
}

/// Whether `c` is one of `0-9a-f`.
pub open spec fn is_lower_hex(c: char) -> bool {
    ('0' <= c && c <= '9') || ('a' <= c && c <= 'f')
}

/// The shortest decimal rendering of `n`.
pub open spec fn dec_nat(n: nat) -> Seq<char>
    decreases n,
{
    if n < 10 {
        seq![digit_char(n)]
    } else {
        dec_nat(n / 10).push(digit_char(n % 10))
    }
}

/// The decimal rendering of a signed integer, with a leading `-` when negative.
pub open spec fn dec_int(n: int) -> Seq<char> {
    if n < 0 {
        seq!['-'] + dec_nat((-n) as nat)
    } else {
        dec_nat(n as nat)
    }
}

/// The `n` lowest hexadecimal digits of `x`, most significant first,
/// zero-padded.
pub open spec fn hex_fixed(x: nat, n: nat) -> Seq<char>
    decreases n,
{
    if n == 0 {
        Seq::empty()
    } else {
        hex_fixed(x / 16, (n - 1) as nat).push(hex_digit(x % 16))
    }
}

/// `16` to the power `n`.
pub open spec fn pow16(n: nat) -> nat
    decreases n,
{
    if n == 0 {
        1
    } else {
        16 * pow16((n - 1) as nat)
    }
}

/// Distinct hexadecimal digits are distinct characters.
pub proof fn lemma_hex_digit_injective(d: nat, e: nat)
    requires
        d < 16,
        e < 16,
        hex_digit(d) == hex_digit(e),
    ensures
        d == e,
{
    let cd: int = if d < 10 { 48 + d as int } else { 87 + d as int };
    let ce: int = if e < 10 { 48 + e as int } else { 87 + e as int };
    assert(hex_digit(d) as int == cd);
    assert(hex_digit(e) as int == ce);
}

/// A zero-padded rendering of `n` hexadecimal digits tells apart the
/// numbers below `16^n`.
pub proof fn lemma_hex_fixed_injective(x: nat, y: nat, n: nat)
    requires
        x < pow16(n),
        y < pow16(n),
        hex_fixed(x, n) == hex_fixed(y, n),
    ensures
        x == y,
    decreases n,
{
    if n > 0 {
        let m = (n - 1) as nat;
        assert(hex_fixed(x, n).last() == hex_digit(x % 16));
        assert(hex_fixed(y, n).last() == hex_digit(y % 16));
        lemma_hex_digit_injective(x % 16, y % 16);
        assert(hex_fixed(x, n).drop_last() =~= hex_fixed(x / 16, m));
        assert(hex_fixed(y, n).drop_last() =~= hex_fixed(y / 16, m));
        assert(x / 16 < pow16(m));
        assert(y / 16 < pow16(m));
        lemma_hex_fixed_injective(x / 16, y / 16, m);
    }
}

/// Lowercase hexadecimal rendering of a byte string, two digits per byte.
pub open spec fn hex_lower(bytes: Seq<u8>) -> Seq<char> {
    Seq::new(
        2 * bytes.len(),
        |i: int|
            if i % 2 == 0 {
                hex_digit((bytes[i / 2] / 16) as nat)
            } else {
                hex_digit((bytes[i / 2] % 16) as nat)
            },
    )
}

fn digit(d: u64) -> (c: char)
    requires
        d < 10,
    ensures
        c == digit_char(d as nat),
{
    ((d as u8) + 48u8) as char
}

fn hex_char(d: u64) -> (c: char)
    requires
        d < 16,
    ensures
        c == hex_digit(d as nat),
{
    if d < 10 {
        ((d as u8) + 48u8) as char
    } else {
        ((d as u8) + 87u8) as char
    }
}

/// Appends the decimal rendering of `n`.
pub fn push_decimal(s: &mut String, n: u64)
    ensures
        final(s)@ == old(s)@ + dec_nat(n as nat),
    decreases n,
{
    if n >= 10 {
        push_decimal(s, n / 10);
    }
    push_char(s, digit(n % 10));
    assert(dec_nat(n as nat) == if n < 10 {
        seq![digit_char(n as nat)]
    } else {
        dec_nat((n / 10) as nat).push(digit_char((n % 10) as nat))
    });
}

/// Appends the decimal rendering of a signed `n`.
pub fn push_decimal_signed(s: &mut String, n: i64)
    ensures
        final(s)@ == old(s)@ + dec_int(n as int),
{
    if n < 0 {
        push_char(s, '-');
        let m: u64 = if n == i64::MIN {
            9223372036854775808u64
        } else {
            (-n) as u64
        };
        push_decimal(s, m);
        assert(seq!['-'] + dec_nat((-n) as nat) == seq!['-'].push('-').drop_first() + dec_nat(
            m as nat,
        ));
    } else {
        push_decimal(s, n as u64);
    }
}

/// Appends the `n` lowest hexadecimal digits of `x`, zero-padded.
pub fn push_hex_fixed(s: &mut String, x: u64, n: u64)
    ensures
        final(s)@ == old(s)@ + hex_fixed(x as nat, n as nat),
    decreases n,
{
    if n > 0 {
        push_hex_fixed(s, x / 16, n - 1);
        push_char(s, hex_char(x % 16));
    }
}

/// The decimal value of a string of ASCII digits.
pub open spec fn digits_value(s: Seq<char>) -> nat
    decreases s.len(),
{
    if s.len() == 0 {
        0
    } else {
        digits_value(s.drop_last()) * 10 + ((s.last() as int - 48) as nat)
    }
}

/// Whether `c` is an ASCII decimal digit.
pub open spec fn is_digit(c: char) -> bool {
    '0' <= c && c <= '9'
}

/// `s` without one leading `+`.
pub open spec fn sign_stripped(s: Seq<char>) -> Seq<char> {
    if s.len() > 0 && s[0] == '+' {
        s.drop_first()
    } else {
        s
    }
}

/// Whether every character of `d` is an ASCII decimal digit.
pub open spec fn all_digits(d: Seq<char>) -> bool {
    forall|i: int| 0 <= i < d.len() ==> is_digit(#[trigger] d[i])
}

/// What `str::parse::<u64>` yields: an optional `+`, then at least one
/// ASCII digit and nothing else, of a value that fits in 64 bits.
pub open spec fn spec_parse_u64(s: Seq<char>) -> Option<u64> {
    let d = sign_stripped(s);
    if d.len() > 0 && all_digits(d) && digits_value(d) <= u64::MAX {
        Some(digits_value(d) as u64)
    } else {
        None
    }
}

proof fn lemma_digits_value_prefix(d: Seq<char>, i: int)
    requires
        0 <= i <= d.len(),
        all_digits(d),
    ensures
        digits_value(d.take(i)) <= digits_value(d),
    decreases d.len(),
{
    if i < d.len() {
        let p = d.drop_last();
        assert(d.take(i) =~= p.take(i));
        assert forall|j: int| 0 <= j < p.len() implies is_digit(#[trigger] p[j]) by {
            assert(p[j] == d[j]);
        }
        lemma_digits_value_prefix(p, i);
        assert(digits_value(d) == digits_value(p) * 10 + ((d.last() as int - 48) as nat));
        assert(digits_value(p) * 10 >= digits_value(p)) by (nonlinear_arith);
    } else {
        assert(d.take(i) =~= d);
    }
}

/// `str::parse::<u64>`, decided character by character.
pub fn parse_u64(s: &str) -> (r: Option<u64>)
    ensures
        r == spec_parse_u64(s@),
{
    let cs = chars_of(s);
    let start: usize = if cs.len() > 0 && cs[0] == '+' {
        1
    } else {
        0
    };
    let ghost d = sign_stripped(s@);
    assert(d =~= cs@.skip(start as int));
    if start == cs.len() {
        return None;
    }
    let mut acc: u64 = 0;
    let mut i: usize = start;
    while i < cs.len()
        invariant
            start <= i <= cs.len(),
            d =~= cs@.skip(start as int),
            d == sign_stripped(s@),
            start < cs.len(),
            forall|j: int| start <= j < i ==> is_digit(#[trigger] cs@[j]),
            acc as nat == digits_value(cs@.subrange(start as int, i as int)),
        decreases cs.len() - i,
    {
        let c = cs[i];
        if !('0' <= c && c <= '9') {
            assert(!is_digit(d[i - start]));
            return None;
        }
        let dv: u64 = ((c as u32) - 48) as u64;
        let ghost pre = cs@.subrange(start as int, i as int);
        let ghost next = cs@.subrange(start as int, i + 1);
        assert(next.drop_last() =~= pre);
        assert(digits_value(next) == digits_value(pre) * 10 + dv);
        match acc.checked_mul(10) {
            None => {
                proof {
                    assert forall|j: int| 0 <= j < next.len() implies is_digit(#[trigger] next[j]) by {
                        assert(next[j] == cs@[start + j]);
                    }
                    if all_digits(d) {
                        assert(next =~= d.take(i + 1 - start));
                        lemma_digits_value_prefix(d, i + 1 - start);
                    }
                }
                return None;
            },
            Some(m) => match m.checked_add(dv) {
                None => {
                    proof {
                        if all_digits(d) {
                            assert(next =~= d.take(i + 1 - start));
                            lemma_digits_value_prefix(d, i + 1 - start);
                        }
                    }
                    return None;
                },
                Some(v) => {
                    acc = v;
                },
            },
        }
        i = i + 1;
    }
    assert(cs@.subrange(start as int, cs.len() as int) =~= d);
    assert forall|j: int| 0 <= j < d.len() implies is_digit(#[trigger] d[j]) by {
        assert(d[j] == cs@[start + j]);
    }
    Some(acc)
}

/// Whether `s` ends with `suffix`.
pub open spec fn ends_with(s: Seq<char>, suffix: Seq<char>) -> bool {
    suffix.len() <= s.len() && s.subrange(s.len() - suffix.len(), s.len() as int) == suffix
}

/// Whether `pat` occurs in `s` at position `i`.
pub open spec fn occurs_at(s: Seq<char>, pat: Seq<char>, i: int) -> bool {
    0 <= i && i + pat.len() <= s.len() && s.subrange(i, i + pat.len()) == pat
}

/// Whether `pat` occurs anywhere in `s`.
pub open spec fn contains(s: Seq<char>, pat: Seq<char>) -> bool {
    exists|i: int| occurs_at(s, pat, i)
}

fn matches_at(s: &Vec<char>, pat: &Vec<char>, i: usize) -> (r: bool)
    ensures
        r == occurs_at(s@, pat@, i as int),
{
    if i > s.len() || pat.len() > s.len() - i {
        return false;
    }
    let mut k: usize = 0;
    while k < pat.len()
        invariant
            i + pat.len() <= s.len(),
            k <= pat.len(),
            forall|j: int| 0 <= j < k ==> s@[i + j] == pat@[j],
        decreases pat.len() - k,
    {
        if s[i + k] != pat[k] {
            assert(s@.subrange(i as int, i + pat.len())[k as int] != pat@[k as int]);
            return false;
        }
        k = k + 1;
    }
    assert(s@.subrange(i as int, i + pat.len()) =~= pat@);
    true
}

/// Whether two strings hold the same characters.
pub fn str_eq(a: &str, b: &str) -> (r: bool)
    ensures
        r == (a@ == b@),
{
    let ac = chars_of(a);
    let bc = chars_of(b);
    if ac.len() != bc.len() {
        return false;
    }
    let r = matches_at(&ac, &bc, 0);
    assert(ac@.subrange(0, bc@.len() as int) =~= ac@);
    r
}

/// The view of an optional string.
pub open spec fn opt_view(o: Option<String>) -> Option<Seq<char>> {
    match o {
        Some(s) => Some(s@),
        None => None,
    }
}

/// Whether `s` ends with `suffix`.
pub fn str_ends_with(s: &str, suffix: &str) -> (r: bool)
    ensures
        r == ends_with(s@, suffix@),
{
    let cs = chars_of(s);
    let ps = chars_of(suffix);
    if ps.len() > cs.len() {
        return false;
    }
    matches_at(&cs, &ps, cs.len() - ps.len())
}

/// Whether `pat` occurs in `s`.
pub fn str_contains(s: &str, pat: &str) -> (r: bool)
    ensures
        r == contains(s@, pat@),
{
    let cs = chars_of(s);
    let ps = chars_of(pat);
    if ps.len() > cs.len() {
        assert forall|i: int| !occurs_at(s@, pat@, i) by {}
        return false;
    }
    let last = cs.len() - ps.len();
    let mut i: usize = 0;
    while i <= last
        invariant
            last == cs.len() - ps.len(),
            cs@ == s@,
            ps@ == pat@,
            forall|j: int| 0 <= j < i ==> !occurs_at(s@, pat@, j),
        decreases last + 1 - i,
    {
        if matches_at(&cs, &ps, i) {
            return true;
        }
        if i == last {
            assert forall|j: int| !occurs_at(s@, pat@, j) by {
                if j > last as int {
                    assert(!occurs_at(s@, pat@, j));
                }
            }
            return false;
        }
        i = i + 1;
    }
    false
}

/// Index of the last occurrence of `c` in `s`, or -1.
pub open spec fn last_index_of(s: Seq<char>, c: char) -> int
    decreases s.len(),
{
    if s.len() == 0 {
        -1
    } else if s.last() == c {
        s.len() - 1
    } else {
        last_index_of(s.drop_last(), c)
    }
}

/// Index of the first occurrence of `c` in `s`, or `s.len()`.
pub open spec fn first_index_of(s: Seq<char>, c: char) -> int
    decreases s.len(),
{
    if s.len() == 0 {
        0
    } else if s[0] == c {
        0
    } else {
        1 + first_index_of(s.drop_first(), c)
    }
}

/// What follows the last `c` in `s` (all of `s` when `c` does not occur):
/// the first item of `s.rsplit(c)`.
pub open spec fn after_last(s: Seq<char>, c: char) -> Seq<char> {
    s.subrange(last_index_of(s, c) + 1, s.len() as int)
}

/// What precedes the first `c` in `s` (all of `s` when `c` does not occur):
/// the first item of `s.split(c)`.
pub open spec fn before_first(s: Seq<char>, c: char) -> Seq<char> {
    s.subrange(0, first_index_of(s, c))
}

proof fn lemma_last_index_of(s: Seq<char>, c: char, i: int)
    requires
        -1 <= i < s.len(),
        i >= 0 ==> s[i] == c,
        forall|j: int| i < j < s.len() ==> s[j] != c,
    ensures
        last_index_of(s, c) == i,
    decreases s.len(),
{
    if s.len() > 0 && s.last() != c {
        let p = s.drop_last();
        assert forall|j: int| i < j < p.len() implies p[j] != c by {
            assert(p[j] == s[j]);
        }
        lemma_last_index_of(p, c, i);
    }
}

proof fn lemma_first_index_of(s: Seq<char>, c: char, i: int)
    requires
        0 <= i <= s.len(),
        i < s.len() ==> s[i] == c,
        forall|j: int| 0 <= j < i ==> s[j] != c,
    ensures
        first_index_of(s, c) == i,
    decreases s.len(),
{
    if s.len() > 0 && s[0] != c {
        let p = s.drop_first();
        assert forall|j: int| 0 <= j < i - 1 implies p[j] != c by {
            assert(p[j] == s[j + 1]);
        }
        lemma_first_index_of(p, c, i - 1);
    }
}

/// Index of the last `c` in `cs`, if any.
pub fn find_last(cs: &Vec<char>, c: char) -> (r: Option<usize>)
    ensures
        match r {
            Some(i) => i as int == last_index_of(cs@, c) && i < cs.len(),
            None => last_index_of(cs@, c) == -1,
        },
{
    let mut i: usize = cs.len();
    while i > 0
        invariant
            i <= cs.len(),
            forall|j: int| i <= j < cs.len() ==> cs@[j] != c,
        decreases i,
    {
        if cs[i - 1] == c {
            proof {
                lemma_last_index_of(cs@, c, i - 1);
            }
            return Some(i - 1);
        }
        i = i - 1;
    }
    proof {
        lemma_last_index_of(cs@, c, -1);
    }
    None
}

/// Index of the first `c` in `cs`, or its length.
pub fn find_first(cs: &Vec<char>, c: char) -> (r: usize)
    ensures
        r as int == first_index_of(cs@, c),
        r <= cs.len(),
{
    let mut i: usize = 0;
    while i < cs.len()
        invariant
            i <= cs.len(),
            forall|j: int| 0 <= j < i ==> cs@[j] != c,
        decreases cs.len() - i,
    {
        if cs[i] == c {
            proof {
                lemma_first_index_of(cs@, c, i as int);
            }
            return i;
        }
        i = i + 1;
    }
    proof {
        lemma_first_index_of(cs@, c, i as int);
    }
    i
}

/// The characters of `cs` in `[from, to)`.
pub fn slice_chars(cs: &Vec<char>, from: usize, to: usize) -> (r: Vec<char>)
    requires
        from <= to <= cs.len(),
    ensures
        r@ == cs@.subrange(from as int, to as int),
{
    let mut v: Vec<char> = Vec::new();
    let mut i = from;
    while i < to
        invariant
            from <= i <= to <= cs.len(),
            v@ == cs@.subrange(from as int, i as int),
        decreases to - i,
    {
        v.push(cs[i]);
        i = i + 1;
        assert(v@ =~= cs@.subrange(from as int, i as int));
    }
    v
}

/// What follows the last `c` in `s`.
pub fn str_after_last(s: &str, c: char) -> (r: String)
    ensures
        r@ == after_last(s@, c),
{
    let cs = chars_of(s);
    let from: usize = match find_last(&cs, c) {
        Some(i) => i + 1,
        None => 0,
    };
    let v = slice_chars(&cs, from, cs.len());
    string_from_chars(v.as_slice())
}

/// What precedes the first `c` in `s`.
pub fn str_before_first(s: &str, c: char) -> (r: String)
    ensures
        r@ == before_first(s@, c),
{
    let cs = chars_of(s);
    let to = find_first(&cs, c);
    let v = slice_chars(&cs, 0, to);
    string_from_chars(v.as_slice())
}

/// The first `n` characters of `s` (all of them when it is shorter).
pub fn str_prefix(s: &str, n: usize) -> (r: String)
    ensures
        r@ == s@.take(if s@.len() < n { s@.len() as int } else { n as int }),
{
    let cs = chars_of(s);
    let to = if cs.len() < n {
        cs.len()
    } else {
        n
    };
    let v = slice_chars(&cs, 0, to);
    string_from_chars(v.as_slice())
}

} // verus!
