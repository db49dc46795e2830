//! Text building blocks: decimal formatting, joining, substring search.
use vstd::prelude::*;
use vstd::string::StrSliceExecFns;
use vstd::string::StringExecFns;

verus! {

/// The decimal digit character of `d` (0–9).
pub open spec fn digit_char(d: int) -> char {
    (d + 48) as char
}

/// Decimal representation of `n`, without sign or leading zeros.
pub open spec fn spec_decimal(n: nat) -> Seq<char>
    decreases n,
{
    if n < 10 {
        seq![digit_char(n as int)]
    } else {
        spec_decimal(n / 10) + seq![digit_char((n % 10) as int)]
    }
}

fn digit_str(d: u64) -> (s: &'static str)
    requires
        d < 10,
    ensures
        s@ == seq![digit_char(d as int)],
{
    proof {
        reveal_strlit("0");
        reveal_strlit("1");
        reveal_strlit("2");
        reveal_strlit("3");
        reveal_strlit("4");
        reveal_strlit("5");
        reveal_strlit("6");
        reveal_strlit("7");
        reveal_strlit("8");
        reveal_strlit("9");
    }
    match d {
        0 => "0",
        1 => "1",
        2 => "2",
        3 => "3",
        4 => "4",
        5 => "5",
        6 => "6",
        7 => "7",
        8 => "8",
        _ => "9",
    }
}

/// Decimal text of `n`.
pub fn decimal(n: u64) -> (s: String)
    ensures
        s@ == spec_decimal(n as nat),
    decreases n,
{
    if n < 10 {
        String::from_str(digit_str(n))
    } else {
        let mut s = decimal(n / 10);
        s.append(digit_str(n % 10));
        s
    }
}

/// Append the decimal text of `n` to `s`.
pub fn push_decimal(s: &mut String, n: u64)
    ensures
        final(s)@ == old(s)@ + spec_decimal(n as nat),
{
    let d = decimal(n);
    s.append(d.as_str());
}

/// `items` joined by `sep`.
pub open spec fn spec_join(items: Seq<Seq<char>>, sep: Seq<char>) -> Seq<char>
    decreases items.len(),
{
    if items.len() == 0 {
        Seq::empty()
    } else if items.len() == 1 {
        items[0]
    } else {
        spec_join(items.drop_last(), sep) + sep + items.last()
    }
}

/// Views of a sequence of strings.
pub open spec fn strings_view(v: Seq<String>) -> Seq<Seq<char>> {
    v.map_values(|s: String| s@)
}

/// The strings of `items` joined by `sep`.
pub fn join(items: &[String], sep: &str) -> (s: String)
    ensures
        s@ == spec_join(strings_view(items@), sep@),
{
    let mut s = String::new();
    let mut i: usize = 0;
    while i < items.len()
        invariant
            i <= items@.len(),
            s@ == spec_join(strings_view(items@.subrange(0, i as int)), sep@),
        decreases items@.len() - i,
    {
        let ghost prev = strings_view(items@.subrange(0, i as int));
        let ghost next = strings_view(items@.subrange(0, i + 1));
        assert(next.drop_last() =~= prev);
        assert(next.last() == items@[i as int]@);
        if i > 0 {
            s.append(sep);
        } else {
            assert(next =~= seq![items@[0]@]);
        }
        s.append(items[i].as_str());
        i += 1;
    }
    assert(items@.subrange(0, items@.len() as int) =~= items@);
    s
}

/// Whether `needle` occurs in `haystack`.
pub open spec fn spec_contains(haystack: Seq<char>, needle: Seq<char>) -> bool {
    exists|i: int|
        0 <= i && i + needle.len() <= haystack.len() && #[trigger] haystack.subrange(
            i,
            i + needle.len(),
        ) == needle
}

fn matches_at(haystack: &str, needle: &str, i: usize, hn: usize, nn: usize) -> (b: bool)
    requires
        hn == haystack@.len(),
        nn == needle@.len(),
        i + nn <= hn,
    ensures
        b == (haystack@.subrange(i as int, i + nn) == needle@),
{
    let mut k: usize = 0;
    while k < nn
        invariant
            hn == haystack@.len(),
            nn == needle@.len(),
            i + nn <= hn,
            k <= nn,
            forall|j: int| 0 <= j < k ==> haystack@[i + j] == needle@[j],
        decreases nn - k,
    {
        if haystack.get_char(i + k) != needle.get_char(k) {
            assert(haystack@.subrange(i as int, i + nn)[k as int] != needle@[k as int]);
            return false;
        }
        k += 1;
    }
    assert(haystack@.subrange(i as int, i + nn) =~= needle@);
    true
}

/// Whether `needle` occurs in `haystack` (the empty needle always does).
pub fn contains_str(haystack: &str, needle: &str) -> (b: bool)
    ensures
        b == spec_contains(haystack@, needle@),
{
    let hn = haystack.unicode_len();
    let nn = needle.unicode_len();
    if nn > hn {
        return false;
    }
    let last = hn - nn;
    let mut i: usize = 0;
    while i <= last
        invariant
            last == hn - nn,
            hn == haystack@.len(),
            nn == needle@.len(),
            nn <= hn,
            i <= hn - nn + 1,
            forall|j: int| 0 <= j < i ==> #[trigger] haystack@.subrange(j, j + nn) != needle@,
        decreases hn - nn + 1 - i,
    {
        if matches_at(haystack, needle, i, hn, nn) {
            return true;
        }
        if i == last {
            return false;
        }
        i += 1;
    }
    false
}

/// Lower-case form of a text, as `str::to_lowercase` computes it.
pub uninterp spec fn spec_lowercase(s: Seq<char>) -> Seq<char>;

/// Calls `str::to_lowercase`: the result is the Unicode lower-case form
/// of `s`, a function of `s` alone (named by `spec_lowercase`).
#[verifier::external_body]
pub(crate) fn to_lowercase(s: &str) -> (r: String)
    ensures
        r@ == spec_lowercase(s@),
{
    s.to_lowercase()
}

/// Debug rendering of a text, as `<str as Debug>::fmt` writes it (quoted,
/// with escapes).
pub uninterp spec fn spec_debug_str(s: Seq<char>) -> Seq<char>;

/// Calls `<str as Debug>::fmt` through `format!`: the result is the quoted,
/// escaped form of `s`, a function of `s` alone (named by `spec_debug_str`).
#[verifier::external_body]
pub(crate) fn debug_str(s: &str) -> (r: String)
    ensures
        r@ == spec_debug_str(s@),
{
    format!("{:?}", s)
}

/// Whether `c` is an ASCII decimal digit.
pub open spec fn spec_is_digit(c: char) -> bool {
    '0' <= c <= '9'
}

/// The value of a string of decimal digits.
pub open spec fn spec_digits_value(s: Seq<char>) -> nat
    decreases s.len(),
{
    if s.len() == 0 {
        0
    } else {
        spec_digits_value(s.drop_last()) * 10 + (s.last() as nat - '0' as nat) as nat
    }
}

/// The digits of an unsigned number's text: everything after an optional
/// leading `+`.
pub open spec fn spec_unsigned_body(s: Seq<char>) -> Seq<char> {
    if s.len() > 0 && s[0] == '+' {
        s.drop_first()
    } else {
        s
    }
}

/// Parse of an unsigned integer no greater than `max`, as `str::parse`
/// does for the unsigned types: an optional `+`, then one or more ASCII
/// digits and nothing else, with a value that fits.
pub open spec fn spec_parse_uint(s: Seq<char>, max: nat) -> Option<nat> {
    let body = spec_unsigned_body(s);
    if body.len() > 0 && (forall|i: int| 0 <= i < body.len() ==> #[trigger] spec_is_digit(body[i]))
        && spec_digits_value(body) <= max {
        Some(spec_digits_value(body))
    } else {
        None
    }
}

proof fn lemma_digits_value_grows(s: Seq<char>, n: int)
    requires
        0 <= n <= s.len(),
        forall|i: int| 0 <= i < s.len() ==> #[trigger] spec_is_digit(s[i]),
    ensures
        spec_digits_value(s.subrange(0, n)) <= spec_digits_value(s),
    decreases s.len() - n,
{
    if n < s.len() {
        lemma_digits_value_grows(s, n + 1);
        assert(s.subrange(0, n + 1).drop_last() =~= s.subrange(0, n));
        assert(spec_is_digit(s[n]));
    } else {
        assert(s.subrange(0, n) =~= s);
    }
}

/// The decimal text of `n` is a non-empty string of digits whose value is
/// `n`.
proof fn lemma_decimal_digits(n: nat)
    ensures
        spec_decimal(n).len() > 0,
        forall|i: int| 0 <= i < spec_decimal(n).len() ==> #[trigger] spec_is_digit(spec_decimal(n)[i]),
        spec_digits_value(spec_decimal(n)) == n,
    decreases n,
{
    if n < 10 {
        let s = spec_decimal(n);
        assert(s.drop_last() =~= Seq::<char>::empty());
        assert(digit_char(n as int) as nat == n + 48);
        assert('0' as nat == 48);
        assert(s.last() == digit_char(n as int));
        assert(spec_digits_value(s) == spec_digits_value(s.drop_last()) * 10 + (s.last() as nat
            - '0' as nat) as nat);
    } else {
        lemma_decimal_digits(n / 10);
        let s = spec_decimal(n);
        let d = (n % 10) as int;
        assert(s.drop_last() =~= spec_decimal(n / 10));
        assert(digit_char(d) as nat == d + 48);
        assert(forall|i: int| 0 <= i < s.len() ==> #[trigger] spec_is_digit(s[i])) by {
            assert forall|i: int| 0 <= i < s.len() implies #[trigger] spec_is_digit(s[i]) by {
                if i < s.len() - 1 {
                    assert(s[i] == spec_decimal(n / 10)[i]);
                }
            }
        }
        assert('0' as nat == 48);
        assert(s.last() == digit_char(d));
        assert(spec_digits_value(s) == spec_digits_value(s.drop_last()) * 10 + (s.last() as nat
            - '0' as nat) as nat);
        assert((n / 10) * 10 + n % 10 == n);
    }
}

/// Reading back the decimal text of a number gives the number.
pub proof fn lemma_parse_decimal(n: nat, max: nat)
    requires
        n <= max,
    ensures
        spec_parse_uint(spec_decimal(n), max) == Some(n),
{
    lemma_decimal_digits(n);
    let s = spec_decimal(n);
    assert(spec_is_digit(s[0]));
    assert(spec_unsigned_body(s) == s);
}

/// Parse an unsigned decimal integer no greater than `max` (see
/// [`spec_parse_uint`]).
pub fn parse_uint(s: &str, max: u64) -> (r: Option<u64>)
    ensures
        match r {
            Some(v) => spec_parse_uint(s@, max as nat) == Some(v as nat),
            None => spec_parse_uint(s@, max as nat) is None,
        },
{
    let n = s.unicode_len();
    let mut start: usize = 0;
    if n > 0 && s.get_char(0) == '+' {
        start = 1;
    }
    let ghost body = spec_unsigned_body(s@);
    assert(body =~= s@.subrange(start as int, n as int));
    if start >= n {
        return None;
    }
    let mut v: u64 = 0;
    let mut i: usize = start;
    while i < n
        invariant
            n == s@.len(),
            start <= i <= n,
            body == spec_unsigned_body(s@),
            body == s@.subrange(start as int, n as int),
            forall|k: int| start <= k < i ==> #[trigger] spec_is_digit(s@[k]),
            v == spec_digits_value(s@.subrange(start as int, i as int)),
            v <= max,
        decreases n - i,
    {
        let c = s.get_char(i);
        if !('0' <= c && c <= '9') {
            proof {
                assert(!spec_is_digit(body[i - start]));
            }
            return None;
        }
        let d = (c as u32 - '0' as u32) as u64;
        let ghost prefix = s@.subrange(start as int, i + 1);
        proof {
            assert(prefix.drop_last() =~= s@.subrange(start as int, i as int));
            assert(prefix.last() == c);
        }
        let nv: u128 = v as u128 * 10 + d as u128;
        if nv > max as u128 {
            proof {
                if forall|k: int| 0 <= k < body.len() ==> #[trigger] spec_is_digit(body[k]) {
                    lemma_digits_value_grows(body, i + 1 - start);
                    assert(body.subrange(0, i + 1 - start) =~= prefix);
                }
            }
            return None;
        }
        v = nv as u64;
        i += 1;
    }
    proof {
        assert(s@.subrange(start as int, n as int) =~= body);
    }
    Some(v)
}

/// Appends `c`, as `String::push` does.
#[verifier::external_body]
pub(crate) fn push_char(s: &mut String, c: char)
    ensures
        final(s)@ == old(s)@.push(c),
{
    s.push(c);
}

/// Removes the last character, as `String::pop` does: `None` (and no
/// change) for an empty text.
pub(crate) fn pop_char(s: &mut String) -> (r: Option<char>)
    ensures
        old(s)@.len() == 0 ==> r is None && final(s)@ == old(s)@,
        old(s)@.len() > 0 ==> r == Some(old(s)@.last()) && final(s)@ == old(s)@.drop_last(),
{
    let n = s.as_str().unicode_len();
    if n == 0 {
        return None;
    }
    let c = s.as_str().get_char(n - 1);
    let rest = String::from_str(s.as_str().substring_char(0, n - 1));
    *s = rest;
    proof {
        assert(s@ =~= old(s)@.drop_last());
    }
    Some(c)
}

/// The upper-case hexadecimal digit of `d` (0–15).
pub open spec fn hex_digit(d: int) -> char {
    if d < 10 {
        (d + 48) as char
    } else {
        (d + 55) as char
    }
}

/// `b` as two upper-case hexadecimal digits.
pub open spec fn spec_hex2(b: u8) -> Seq<char> {
    seq![hex_digit((b / 16) as int), hex_digit((b % 16) as int)]
}

/// `v` as four upper-case hexadecimal digits.
pub open spec fn spec_hex4(v: u16) -> Seq<char> {
    spec_hex2((v / 256) as u8) + spec_hex2((v % 256) as u8)
}

fn hex_char(d: u8) -> (c: char)
    requires
        d < 16,
    ensures
        c == hex_digit(d as int),
{
    if d < 10 {
        (48 + d) as char
    } else {
        (55 + d) as char
    }
}

/// Appends `b` as two upper-case hexadecimal digits (`{:02X}`).
pub fn push_hex2(s: &mut String, b: u8)
    ensures
        final(s)@ == old(s)@ + spec_hex2(b),
{
    push_char(s, hex_char(b / 16));
    push_char(s, hex_char(b % 16));
    assert(s@ =~= old(s)@ + spec_hex2(b));
}

/// Appends `v` as four upper-case hexadecimal digits (`{:04X}`).
pub fn push_hex4(s: &mut String, v: u16)
    ensures
        final(s)@ == old(s)@ + spec_hex4(v),
{
    push_hex2(s, (v / 256) as u8);
    push_hex2(s, (v % 256) as u8);
    assert(s@ =~= old(s)@ + spec_hex4(v));
}

/// Whether `c` has the Unicode `White_Space` property.
pub open spec fn spec_is_whitespace(c: char) -> bool {
    ||| '\u{9}' <= c <= '\u{d}'
    ||| c == ' '
    ||| c == '\u{85}'
    ||| c == '\u{a0}'
    ||| c == '\u{1680}'
    ||| '\u{2000}' <= c <= '\u{200a}'
    ||| c == '\u{2028}'
    ||| c == '\u{2029}'
    ||| c == '\u{202f}'
    ||| c == '\u{205f}'
    ||| c == '\u{3000}'
}

/// `s` without its leading whitespace.
pub open spec fn spec_trim_start(s: Seq<char>) -> Seq<char>
    decreases s.len(),
{
    if s.len() > 0 && spec_is_whitespace(s[0]) {
        spec_trim_start(s.drop_first())
    } else {
        s
    }
}

/// `s` without its trailing whitespace.
pub open spec fn spec_trim_end(s: Seq<char>) -> Seq<char>
    decreases s.len(),
{
    if s.len() > 0 && spec_is_whitespace(s.last()) {
        spec_trim_end(s.drop_last())
    } else {
        s
    }
}

/// `s` without leading and trailing whitespace, as `str::trim` returns it.
pub open spec fn spec_trim(s: Seq<char>) -> Seq<char> {
    spec_trim_end(spec_trim_start(s))
}

fn is_whitespace(c: char) -> (b: bool)
    ensures
        b == spec_is_whitespace(c),
{
    ('\u{9}' <= c && c <= '\u{d}') || c == ' ' || c == '\u{85}' || c == '\u{a0}' || c
        == '\u{1680}' || ('\u{2000}' <= c && c <= '\u{200a}') || c == '\u{2028}' || c
        == '\u{2029}' || c == '\u{202f}' || c == '\u{205f}' || c == '\u{3000}'
}

/// `s` without leading and trailing whitespace (Unicode `White_Space`).
pub fn trim(s: &str) -> (r: String)
    ensures
        r@ == spec_trim(s@),
{
    let n = s.unicode_len();
    let mut a: usize = 0;
    assert(s@.subrange(0, n as int) =~= s@);
    while a < n && is_whitespace(s.get_char(a))
        invariant
            n == s@.len(),
            a <= n,
            spec_trim_start(s@) == spec_trim_start(s@.subrange(a as int, n as int)),
        decreases n - a,
    {
        proof {
            let rest = s@.subrange(a as int, n as int);
            assert(rest.drop_first() =~= s@.subrange(a + 1, n as int));
        }
        a += 1;
    }
    let ghost start = s@.subrange(a as int, n as int);
    assert(spec_trim_start(start) == start);
    let mut b: usize = n;
    while b > a && is_whitespace(s.get_char(b - 1))
        invariant
            n == s@.len(),
            a <= b <= n,
            start == s@.subrange(a as int, n as int),
            spec_trim_end(start) == spec_trim_end(s@.subrange(a as int, b as int)),
        decreases b,
    {
        proof {
            let rest = s@.subrange(a as int, b as int);
            assert(rest.drop_last() =~= s@.subrange(a as int, b - 1));
        }
        b -= 1;
    }
    let t = s.substring_char(a, b);
    String::from_str(t)
}

/// The pieces of `s[start..]` separated by `sep`, with `s[start..i]`
/// already known to hold no separator.
pub open spec fn spec_split_from(s: Seq<char>, sep: char, start: int, i: int) -> Seq<Seq<char>>
    decreases s.len() - i,
{
    if i >= s.len() || i < start || start < 0 {
        seq![s.subrange(start, s.len() as int)]
    } else if s[i] == sep {
        seq![s.subrange(start, i)] + spec_split_from(s, sep, i + 1, i + 1)
    } else {
        spec_split_from(s, sep, start, i + 1)
    }
}

/// The pieces of `s` between occurrences of `sep`, as `str::split` gives
/// them (an empty text gives one empty piece).
pub open spec fn spec_split(s: Seq<char>, sep: char) -> Seq<Seq<char>> {
    spec_split_from(s, sep, 0, 0)
}

/// The pieces of `s` between occurrences of `sep`.
pub fn split_char(s: &str, sep: char) -> (v: Vec<String>)
    ensures
        strings_view(v@) == spec_split(s@, sep),
{
    let n = s.unicode_len();
    let mut v: Vec<String> = Vec::new();
    let mut start: usize = 0;
    let mut i: usize = 0;
    while i < n
        invariant
            n == s@.len(),
            start <= i <= n,
            strings_view(v@) + spec_split_from(s@, sep, start as int, i as int) == spec_split(
                s@,
                sep,
            ),
        decreases n - i,
    {
        if s.get_char(i) == sep {
            let piece = String::from_str(s.substring_char(start, i));
            let ghost before = v@;
            v.push(piece);
            proof {
                assert(strings_view(v@) =~= strings_view(before).push(piece@));
                assert(strings_view(v@) + spec_split_from(s@, sep, i + 1, i + 1) =~= strings_view(
                    before,
                ) + spec_split_from(s@, sep, start as int, i as int));
            }
            start = i + 1;
        }
        i += 1;
    }
    let piece = String::from_str(s.substring_char(start, n));
    let ghost before = v@;
    v.push(piece);
    proof {
        assert(strings_view(v@) =~= strings_view(before) + spec_split_from(
            s@,
            sep,
            start as int,
            i as int,
        ));
    }
    v
}

/// Whether `a` sorts before `b`: lexicographic by code point, a proper
/// prefix first (the order of `str`'s `Ord`).
pub open spec fn spec_text_less(a: Seq<char>, b: Seq<char>) -> bool
    decreases a.len(),
{
    if a.len() == 0 {
        b.len() > 0
    } else if b.len() == 0 {
        false
    } else if a[0] != b[0] {
        (a[0] as int) < (b[0] as int)
    } else {
        spec_text_less(a.drop_first(), b.drop_first())
    }
}

/// Text order is a strict order: never both ways.
pub proof fn lemma_text_less_asym(a: Seq<char>, b: Seq<char>)
    ensures
        !(spec_text_less(a, b) && spec_text_less(b, a)),
    decreases a.len(),
{
    if a.len() > 0 && b.len() > 0 && a[0] == b[0] {
        lemma_text_less_asym(a.drop_first(), b.drop_first());
    }
}

/// Text order is transitive.
pub proof fn lemma_text_less_trans(a: Seq<char>, b: Seq<char>, c: Seq<char>)
    requires
        spec_text_less(a, b),
        spec_text_less(b, c),
    ensures
        spec_text_less(a, c),
    decreases a.len(),
{
    if a.len() > 0 && b.len() > 0 && c.len() > 0 && a[0] == b[0] && b[0] == c[0] {
        lemma_text_less_trans(a.drop_first(), b.drop_first(), c.drop_first());
    }
}

/// Two different texts are ordered one way or the other.
pub proof fn lemma_text_less_total(a: Seq<char>, b: Seq<char>)
    requires
        a != b,
    ensures
        spec_text_less(a, b) || spec_text_less(b, a),
    decreases a.len(),
{
    if a.len() > 0 && b.len() > 0 && a[0] == b[0] {
        if a.drop_first() == b.drop_first() {
            assert(a =~= seq![a[0]] + a.drop_first());
            assert(b =~= seq![b[0]] + b.drop_first());
        }
        lemma_text_less_total(a.drop_first(), b.drop_first());
    } else if a.len() > 0 && b.len() > 0 {
        assert((a[0] as int) != (b[0] as int));
    } else if a.len() == 0 && b.len() == 0 {
        assert(a =~= b);
    }
}

/// Whether `a` sorts before `b` (lexicographic by code point).
pub fn text_less(a: &str, b: &str) -> (r: bool)
    ensures
        r == spec_text_less(a@, b@),
{
    let n = a.unicode_len();
    let m = b.unicode_len();
    let mut i: usize = 0;
    assert(a@.skip(0) =~= a@ && b@.skip(0) =~= b@);
    while i < n && i < m
        invariant
            n == a@.len(),
            m == b@.len(),
            i <= n,
            i <= m,
            spec_text_less(a@, b@) == spec_text_less(a@.skip(i as int), b@.skip(i as int)),
        decreases n - i,
    {
        let x = a.get_char(i);
        let y = b.get_char(i);
        if x != y {
            return (x as u32) < (y as u32);
        }
        proof {
            assert(a@.skip(i as int).drop_first() =~= a@.skip(i + 1));
            assert(b@.skip(i as int).drop_first() =~= b@.skip(i + 1));
        }
        i += 1;
    }
    i == n && i < m
}

} // verus!
