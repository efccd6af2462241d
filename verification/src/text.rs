//! Text helpers shared by the parsers and the message builders: the
//! characters of a string, whitespace trimming, decimal formatting and
//! parsing of unsigned integers.

use vstd::prelude::*;
use vstd::string::*;

verus! {

broadcast use vstd::string::group_string_axioms;

/// The characters of `s`, in order.
pub fn chars_of(s: &str) -> (v: Vec<char>)
    ensures
        v@ == s@,
{
    let mut v: Vec<char> = Vec::new();
    for c in iter: s.chars()
        invariant
            v@ == iter.seq().take(iter.index()),
            iter.seq() == s@,
    {
        v.push(c);
    }
    v
}

/// Unicode's `White_Space` characters: what `char::is_whitespace`
/// recognises, and what `str::trim` strips.
pub open spec fn is_space(c: char) -> bool {
    ||| ('\t' <= c && c <= '\r')
    ||| c == ' '
    ||| c == '\u{85}'
    ||| c == '\u{a0}'
    ||| c == '\u{1680}'
    ||| ('\u{2000}' <= c && c <= '\u{200a}')
    ||| c == '\u{2028}'
    ||| c == '\u{2029}'
    ||| c == '\u{202f}'
    ||| c == '\u{205f}'
    ||| c == '\u{3000}'
}

/// Whether `c` is a whitespace character.
pub fn is_space_char(c: char) -> (r: bool)
    ensures
        r == is_space(c),
{
    ('\t' <= c && c <= '\r') || c == ' ' || c == '\u{85}' || c == '\u{a0}' || c == '\u{1680}'
        || ('\u{2000}' <= c && c <= '\u{200a}') || c == '\u{2028}' || c == '\u{2029}'
        || c == '\u{202f}' || c == '\u{205f}' || c == '\u{3000}'
}

/// `s` without its leading whitespace.
pub open spec fn trim_start(s: Seq<char>) -> Seq<char>
    decreases s.len(),
{
    if s.len() > 0 && is_space(s[0]) {
        trim_start(s.drop_first())
    } else {
        s
    }
}

/// `s` without its trailing whitespace.
pub open spec fn trim_end(s: Seq<char>) -> Seq<char>
    decreases s.len(),
{
    if s.len() > 0 && is_space(s.last()) {
        trim_end(s.drop_last())
    } else {
        s
    }
}

/// `s` without its leading and trailing whitespace.
pub open spec fn trim(s: Seq<char>) -> Seq<char> {
    trim_end(trim_start(s))
}

/// `s` without the copies of `c` that end it.
pub open spec fn trim_end_char(s: Seq<char>, c: char) -> Seq<char>
    decreases s.len(),
{
    if s.len() > 0 && s.last() == c {
        trim_end_char(s.drop_last(), c)
    } else {
        s
    }
}

proof fn lemma_trim_start_at(s: Seq<char>, a: int)
    requires
        0 <= a <= s.len(),
        forall|i: int| 0 <= i < a ==> is_space(#[trigger] s[i]),
        a == s.len() || !is_space(s[a]),
    ensures
        trim_start(s) == s.subrange(a, s.len() as int),
    decreases a,
{
    if a == 0 {
        assert(s.subrange(0, s.len() as int) =~= s);
    } else {
        let t = s.drop_first();
        assert forall|i: int| 0 <= i < a - 1 implies is_space(#[trigger] t[i]) by {
            assert(t[i] == s[i + 1]);
        }
        lemma_trim_start_at(t, a - 1);
        assert(t.subrange(a - 1, t.len() as int) =~= s.subrange(a, s.len() as int));
    }
}

proof fn lemma_trim_end_at(s: Seq<char>, b: int)
    requires
        0 <= b <= s.len(),
        forall|i: int| b <= i < s.len() ==> is_space(#[trigger] s[i]),
        b == 0 || !is_space(s[b - 1]),
    ensures
        trim_end(s) == s.subrange(0, b),
    decreases s.len() - b,
{
    if b == s.len() {
        assert(s.subrange(0, b) =~= s);
    } else {
        let t = s.drop_last();
        assert forall|i: int| b <= i < t.len() implies is_space(#[trigger] t[i]) by {
            assert(t[i] == s[i]);
        }
        lemma_trim_end_at(t, b);
        assert(t.subrange(0, b) =~= s.subrange(0, b));
    }
}

proof fn lemma_trim_end_char_at(s: Seq<char>, c: char, b: int)
    requires
        0 <= b <= s.len(),
        forall|i: int| b <= i < s.len() ==> #[trigger] s[i] == c,
        b == 0 || s[b - 1] != c,
    ensures
        trim_end_char(s, c) == s.subrange(0, b),
    decreases s.len() - b,
{
    if b == s.len() {
        assert(s.subrange(0, b) =~= s);
    } else {
        let t = s.drop_last();
        assert forall|i: int| b <= i < t.len() implies #[trigger] t[i] == c by {
            assert(t[i] == s[i]);
        }
        lemma_trim_end_char_at(t, c, b);
        assert(t.subrange(0, b) =~= s.subrange(0, b));
    }
}

/// The bounds `(a, b)` of the trimmed part of `v[from..to]`: `v[a..b]` is
/// `v[from..to]` without its leading and trailing whitespace.
pub fn trim_bounds(v: &Vec<char>, from: usize, to: usize) -> (r: (usize, usize))
    requires
        from <= to <= v@.len(),
    ensures
        from <= r.0 <= r.1 <= to,
        v@.subrange(r.0 as int, r.1 as int) == trim(v@.subrange(from as int, to as int)),
{
    let ghost s = v@.subrange(from as int, to as int);
    let mut a: usize = from;
    while a < to && is_space_char(v[a])
        invariant
            from <= a <= to <= v@.len(),
            s == v@.subrange(from as int, to as int),
            forall|i: int| 0 <= i < a - from ==> is_space(#[trigger] s[i]),
        decreases to - a,
    {
        assert(s[a - from] == v@[a as int]);
        a = a + 1;
    }
    proof {
        if a < to {
            assert(s[a - from] == v@[a as int]);
        }
        lemma_trim_start_at(s, a - from);
        assert(s.subrange(a - from, s.len() as int) =~= v@.subrange(a as int, to as int));
    }
    let ghost t = v@.subrange(a as int, to as int);
    let mut b: usize = to;
    while b > a && is_space_char(v[b - 1])
        invariant
            from <= a <= b <= to <= v@.len(),
            t == v@.subrange(a as int, to as int),
            forall|i: int| b <= i < to ==> is_space(#[trigger] v@[i]),
        decreases b - a,
    {
        b = b - 1;
    }
    proof {
        assert forall|i: int| b - a <= i < t.len() implies is_space(#[trigger] t[i]) by {
            assert(t[i] == v@[a + i]);
        }
        if b > a {
            assert(t[b - a - 1] == v@[b - 1]);
        }
        lemma_trim_end_at(t, b - a);
        assert(t.subrange(0, b - a) =~= v@.subrange(a as int, b as int));
    }
    (a, b)
}

/// `s` without its leading and trailing whitespace (`str::trim`).
pub fn trim_str(s: &str) -> (r: &str)
    ensures
        r@ == trim(s@),
{
    let v = chars_of(s);
    let (a, b) = trim_bounds(&v, 0, v.len());
    assert(v@.subrange(0, v@.len() as int) =~= v@);
    s.substring_char(a, b)
}

/// `s` trimmed, when something is left: the reading of an optional
/// setting, where blank means unset.
pub fn nonblank(s: &str) -> (r: Option<String>)
    ensures
        r is Some <==> trim(s@).len() > 0,
        r matches Some(t) ==> t@ == trim(s@),
{
    let t = trim_str(s);
    if t.unicode_len() == 0 {
        None
    } else {
        Some(String::from_str(t))
    }
}

/// `s` without the slashes that end it (`trim_end_matches('/')`).
pub fn trim_trailing_slashes(s: &str) -> (r: &str)
    ensures
        r@ == trim_end_char(s@, '/'),
{
    let v = chars_of(s);
    let mut b: usize = v.len();
    while b > 0 && v[b - 1] == '/'
        invariant
            b <= v@.len() == s@.len(),
            v@ == s@,
            forall|i: int| b <= i < v@.len() ==> #[trigger] v@[i] == '/',
        decreases b,
    {
        b = b - 1;
    }
    proof {
        lemma_trim_end_char_at(s@, '/', b as int);
    }
    s.substring_char(0, b)
}

/// The decimal digit character of `d` (0 ≤ d < 10).
pub open spec fn digit_char(d: nat) -> char {
    ((48 + d) as u32) as char
}

/// Whether `c` is an ASCII decimal digit.
pub open spec fn is_digit(c: char) -> bool {
    '0' <= c && c <= '9'
}

/// The value of the ASCII digit `c`.
pub open spec fn digit_value(c: char) -> nat {
    (c as u32 - 48) as nat
}

/// The decimal representation of `n`, without leading zeros (`"0"` for 0):
/// what `Display` writes for an unsigned integer.
pub open spec fn decimal(n: nat) -> Seq<char>
    decreases n,
{
    if n < 10 {
        seq![digit_char(n)]
    } else {
        decimal(n / 10).push(digit_char(n % 10))
    }
}

/// `decimal(n)` padded with zeros on the left to at least `width`
/// characters (`{:0width$}`).
pub open spec fn zero_padded(n: nat, width: nat) -> Seq<char> {
    let d = decimal(n);
    if d.len() >= width {
        d
    } else {
        Seq::new((width - d.len()) as nat, |i: int| '0') + d
    }
}

/// The string of the single digit `d`.
fn digit_str(d: u64) -> (r: String)
    requires
        d < 10,
    ensures
        r@ == seq![digit_char(d as nat)],
{
    let digits = "0123456789";
    proof {
        reveal_strlit("0123456789");
    }
    let one = digits.substring_char(d as usize, d as usize + 1);
    assert(one@ =~= seq![digit_char(d as nat)]);
    String::from_str(one)
}

/// The decimal representation of `n` (`n.to_string()`).
pub fn format_u64(n: u64) -> (r: String)
    ensures
        r@ == decimal(n as nat),
    decreases n,
{
    if n < 10 {
        digit_str(n)
    } else {
        let mut s = format_u64(n / 10);
        let last = digit_str(n % 10);
        s.append(last.as_str());
        s
    }
}

/// `n` in decimal, zero-padded to two characters (`{:02}`).
pub fn format_two_digits(n: u64) -> (r: String)
    ensures
        r@ == zero_padded(n as nat, 2),
{
    let d = format_u64(n);
    if n < 10 {
        let mut s = String::from_str("0");
        proof {
            reveal_strlit("0");
        }
        s.append(d.as_str());
        assert(s@ =~= zero_padded(n as nat, 2));
        s
    } else {
        proof {
            lemma_decimal_len_at_least_two(n as nat);
        }
        d
    }
}

proof fn lemma_decimal_len_at_least_two(n: nat)
    requires
        n >= 10,
    ensures
        decimal(n).len() >= 2,
{
    assert(decimal(n / 10).len() >= 1) by {
        reveal_with_fuel(decimal, 2);
    }
}

/// The value of a sequence of ASCII digits, most significant first.
pub open spec fn digits_value(s: Seq<char>) -> nat
    decreases s.len(),
{
    if s.len() == 0 {
        0
    } else {
        digits_value(s.drop_last()) * 10 + digit_value(s.last())
    }
}

/// The digits of `s` after an optional leading `+`.
pub open spec fn unsigned_digits(s: Seq<char>) -> Seq<char> {
    if s.len() > 0 && s[0] == '+' {
        s.drop_first()
    } else {
        s
    }
}

/// What `str::parse` gives for an unsigned integer type of maximum
/// `max`: an optional `+`, then one or more ASCII digits whose value is at
/// most `max`; anything else (empty, a sign alone, a `-`, another
/// character, an overflow) is an error.
pub open spec fn parse_unsigned(s: Seq<char>, max: nat) -> Option<nat> {
    let d = unsigned_digits(s);
    if d.len() > 0 && (forall|i: int| 0 <= i < d.len() ==> is_digit(#[trigger] d[i]))
        && digits_value(d) <= max {
        Some(digits_value(d))
    } else {
        None
    }
}

proof fn lemma_digits_value_take(s: Seq<char>, i: int)
    requires
        0 <= i < s.len(),
    ensures
        digits_value(s.take(i + 1)) == digits_value(s.take(i)) * 10 + digit_value(s[i]),
{
    assert(s.take(i + 1).drop_last() =~= s.take(i));
}

proof fn lemma_digits_value_monotone(s: Seq<char>, i: int)
    requires
        0 <= i <= s.len(),
        forall|k: int| 0 <= k < s.len() ==> is_digit(#[trigger] s[k]),
    ensures
        digits_value(s.take(i)) <= digits_value(s),
    decreases s.len() - i,
{
    if i < s.len() {
        lemma_digits_value_monotone(s, i + 1);
        lemma_digits_value_take(s, i);
    } else {
        assert(s.take(i) =~= s);
    }
}

/// Parse `v[from..to]` as an unsigned integer of maximum `max`, the way
/// `str::parse` does.
pub fn parse_unsigned_chars(v: &Vec<char>, from: usize, to: usize, max: u64) -> (r: Option<u64>)
    requires
        from <= to <= v@.len(),
    ensures
        r matches Some(x) ==> parse_unsigned(v@.subrange(from as int, to as int), max as nat) == Some(x as nat),
        r is None ==> parse_unsigned(v@.subrange(from as int, to as int), max as nat) is None,
{
    let ghost s = v@.subrange(from as int, to as int);
    let mut start = from;
    if from < to && v[from] == '+' {
        start = from + 1;
    }
    let ghost d = v@.subrange(start as int, to as int);
    assert(d =~= unsigned_digits(s));
    if start == to {
        return None;
    }
    let mut acc: u64 = 0;
    let mut i = start;
    while i < to
        invariant
            start <= i <= to <= v@.len(),
            d == v@.subrange(start as int, to as int),
            s == v@.subrange(from as int, to as int),
            d == unsigned_digits(s),
            forall|k: int| 0 <= k < i - start ==> is_digit(#[trigger] d[k]),
            acc as nat == digits_value(d.take(i - start)),
            acc <= max,
        decreases to - i,
    {
        let c = v[i];
        if !('0' <= c && c <= '9') {
            proof {
                assert(!is_digit(d[i - start]));
                assert(!(forall|k: int| 0 <= k < d.len() ==> is_digit(#[trigger] d[k])));
            }
            return None;
        }
        let dv = (c as u32 - 48) as u64;
        proof {
            lemma_digits_value_take(d, i - start);
        }
        if dv > max || acc > (max - dv) / 10 {
            proof {
                if dv <= max {
                    assert(acc * 10 + dv > max) by (nonlinear_arith)
                        requires acc > (max - dv) / 10, dv <= max;
                }
                if forall|k: int| 0 <= k < d.len() ==> is_digit(#[trigger] d[k]) {
                    lemma_digits_value_monotone(d, i - start + 1);
                }
            }
            return None;
        }
        assert(acc * 10 + dv <= max) by (nonlinear_arith)
            requires acc <= (max - dv) / 10, dv <= max;
        acc = acc * 10 + dv;
        i = i + 1;
    }
    assert(d.take(to - start) =~= d);
    Some(acc)
}

/// The index of the first `c` in `s` (`find`).
pub open spec fn find_char(s: Seq<char>, c: char) -> Option<nat>
    decreases s.len(),
{
    if s.len() == 0 {
        None
    } else if s[0] == c {
        Some(0)
    } else {
        match find_char(s.drop_first(), c) {
            Some(i) => Some(i + 1),
            None => None,
        }
    }
}

/// The index of the last `c` in `s` (`rfind`).
pub open spec fn rfind_char(s: Seq<char>, c: char) -> Option<nat>
    decreases s.len(),
{
    if s.len() == 0 {
        None
    } else if s.last() == c {
        Some((s.len() - 1) as nat)
    } else {
        rfind_char(s.drop_last(), c)
    }
}

/// The index of the first occurrence of `k` in `s` (`find` of a pattern).
pub open spec fn find_seq(s: Seq<char>, k: Seq<char>) -> Option<nat>
    decreases s.len(),
{
    if k.len() <= s.len() && s.take(k.len() as int) == k {
        Some(0)
    } else if s.len() == 0 {
        None
    } else {
        match find_seq(s.drop_first(), k) {
            Some(i) => Some(i + 1),
            None => None,
        }
    }
}

proof fn lemma_find_char_at(s: Seq<char>, c: char, i: int)
    requires
        0 <= i <= s.len(),
        forall|k: int| 0 <= k < i ==> #[trigger] s[k] != c,
    ensures
        i < s.len() && s[i] == c ==> find_char(s, c) == Some(i as nat),
        i == s.len() ==> find_char(s, c) is None,
    decreases i,
{
    if i > 0 {
        let t = s.drop_first();
        assert forall|k: int| 0 <= k < i - 1 implies #[trigger] t[k] != c by {
            assert(t[k] == s[k + 1]);
        }
        lemma_find_char_at(t, c, i - 1);
        if i < s.len() {
            assert(t[i - 1] == s[i]);
        }
    }
}

proof fn lemma_rfind_char_at(s: Seq<char>, c: char, b: int)
    requires
        0 <= b <= s.len(),
        forall|k: int| b <= k < s.len() ==> #[trigger] s[k] != c,
    ensures
        b > 0 && s[b - 1] == c ==> rfind_char(s, c) == Some((b - 1) as nat),
        b == 0 ==> rfind_char(s, c) is None,
    decreases s.len() - b,
{
    if b < s.len() {
        let t = s.drop_last();
        assert forall|k: int| b <= k < t.len() implies #[trigger] t[k] != c by {
            assert(t[k] == s[k]);
        }
        lemma_rfind_char_at(t, c, b);
        if b > 0 {
            assert(t[b - 1] == s[b - 1]);
        }
    }
}

/// The index of the first `c` in `v[from..]`, relative to `from`.
pub fn find_char_from(v: &Vec<char>, from: usize, c: char) -> (r: Option<usize>)
    requires
        from <= v@.len(),
    ensures
        r matches Some(i) ==> find_char(v@.skip(from as int), c) == Some(i as nat),
        r is None ==> find_char(v@.skip(from as int), c) is None,
{
    let ghost s = v@.skip(from as int);
    let mut i = from;
    while i < v.len()
        invariant
            from <= i <= v@.len(),
            s == v@.skip(from as int),
            forall|k: int| 0 <= k < i - from ==> #[trigger] s[k] != c,
        decreases v@.len() - i,
    {
        if v[i] == c {
            proof {
                assert(s[i - from] == v@[i as int]);
                lemma_find_char_at(s, c, i - from);
            }
            return Some(i - from);
        }
        assert(s[i - from] == v@[i as int]);
        i = i + 1;
    }
    proof {
        lemma_find_char_at(s, c, i - from);
    }
    None
}

/// The index of the last `c` in `v`.
pub fn rfind_char_in(v: &Vec<char>, c: char) -> (r: Option<usize>)
    ensures
        r matches Some(i) ==> rfind_char(v@, c) == Some(i as nat),
        r is None ==> rfind_char(v@, c) is None,
{
    let mut b = v.len();
    while b > 0
        invariant
            b <= v@.len(),
            forall|k: int| b <= k < v@.len() ==> #[trigger] v@[k] != c,
        decreases b,
    {
        if v[b - 1] == c {
            proof {
                lemma_rfind_char_at(v@, c, b as int);
            }
            return Some(b - 1);
        }
        b = b - 1;
    }
    proof {
        lemma_rfind_char_at(v@, c, 0);
    }
    None
}

proof fn lemma_find_seq_at(s: Seq<char>, k: Seq<char>, i: int)
    requires
        0 <= i <= s.len(),
        forall|j: int| 0 <= j < i ==> !(k.len() <= s.len() - j && #[trigger] s.skip(j).take(k.len() as int) == k),
    ensures
        (k.len() <= s.len() - i && s.skip(i).take(k.len() as int) == k) ==> find_seq(s, k) == Some(i as nat),
        (i == s.len() && !(k.len() <= s.len() - i && s.skip(i).take(k.len() as int) == k)) ==> find_seq(s, k) is None,
    decreases i,
{
    assert(s.skip(0) =~= s);
    if i > 0 {
        let t = s.drop_first();
        assert forall|j: int| 0 <= j < i - 1 implies !(k.len() <= t.len() - j && #[trigger] t.skip(j).take(k.len() as int) == k) by {
            assert(t.skip(j) =~= s.skip(j + 1));
        }
        assert(t.skip(i - 1) =~= s.skip(i));
        lemma_find_seq_at(t, k, i - 1);
    } else {
        if s.len() == 0 {
        }
    }
}

/// A first index found by [`find_char`] is an index of `s`.
pub proof fn lemma_find_char_fits(s: Seq<char>, c: char)
    ensures
        find_char(s, c) matches Some(i) ==> i < s.len() && s[i as int] == c,
    decreases s.len(),
{
    if s.len() > 0 && s[0] != c {
        lemma_find_char_fits(s.drop_first(), c);
    }
}

/// A first occurrence found by [`find_seq`] lies inside `s`.
pub proof fn lemma_find_seq_fits(s: Seq<char>, k: Seq<char>)
    ensures
        find_seq(s, k) matches Some(i) ==> i + k.len() <= s.len(),
    decreases s.len(),
{
    if !(k.len() <= s.len() && s.take(k.len() as int) == k) && s.len() > 0 {
        lemma_find_seq_fits(s.drop_first(), k);
    }
}

/// Whether `k` occurs in `v` at position `at`.
fn occurs_at(v: &Vec<char>, k: &Vec<char>, at: usize) -> (r: bool)
    requires
        at <= v@.len(),
    ensures
        r == (k@.len() <= v@.len() - at && v@.skip(at as int).take(k@.len() as int) == k@),
{
    if k.len() > v.len() - at {
        return false;
    }
    let mut j: usize = 0;
    while j < k.len()
        invariant
            at <= v.len(),
            j <= k.len(),
            k.len() + at <= v.len(),
            forall|m: int| 0 <= m < j ==> v@[at + m] == k@[m],
        decreases k@.len() - j,
    {
        if v[at + j] != k[j] {
            assert(v@.skip(at as int).take(k@.len() as int)[j as int] != k@[j as int]);
            return false;
        }
        j = j + 1;
    }
    assert(v@.skip(at as int).take(k@.len() as int) =~= k@);
    true
}

/// The index of the first occurrence of `k` in `v`.
pub fn find_seq_in(v: &Vec<char>, k: &Vec<char>) -> (r: Option<usize>)
    ensures
        r matches Some(i) ==> find_seq(v@, k@) == Some(i as nat),
        r is None ==> find_seq(v@, k@) is None,
{
    let mut i: usize = 0;
    loop
        invariant
            i <= v@.len(),
            forall|j: int| 0 <= j < i ==> !(k@.len() <= v@.len() - j && #[trigger] v@.skip(j).take(k@.len() as int) == k@),
        decreases v@.len() - i,
    {
        if occurs_at(v, k, i) {
            proof {
                lemma_find_seq_at(v@, k@, i as int);
            }
            return Some(i);
        }
        if i == v.len() {
            proof {
                lemma_find_seq_at(v@, k@, i as int);
            }
            return None;
        }
        i = i + 1;
    }
}

} // verus!
