//! Character-level helpers shared by the SQL writers, the file parsers and the
//! command-line output: appending, decimal and hex spelling, whitespace trimming,
//! prefix and substring tests, replacement, and line splitting.

use vstd::prelude::*;
use vstd::string::*;

verus! {

// ---------------------------------------------------------------------------
// Appending
// ---------------------------------------------------------------------------

/// Appends one character to `s` (`String::push`).
#[verifier::external_body]
pub fn push_char(s: &mut String, c: char)
    ensures
        final(s)@ == old(s)@.push(c),
{
    s.push(c);
}

/// Appends `t` to `s`.
pub fn push_str(s: &mut String, t: &str)
    ensures
        final(s)@ == old(s)@ + t@,
{
    s.append(t);
}

/// An owned copy of `t`.
pub fn owned(t: &str) -> (s: String)
    ensures
        s@ == t@,
{
    let mut s = String::new();
    push_str(&mut s, t);
    s
}

/// The characters of `s`, in order.
pub fn chars_of(s: &str) -> (v: Vec<char>)
    ensures
        v@ == s@,
{
    let mut v: Vec<char> = Vec::new();
    for c in it: s.chars()
        invariant
            v@ == it.seq().take(it.index() as int),
    {
        v.push(c);
    }
    v
}

/// Appends the characters `chars[from..to]` to `out`.
pub fn push_range(out: &mut String, chars: &Vec<char>, from: usize, to: usize)
    requires
        from <= to <= chars@.len(),
    ensures
        final(out)@ == old(out)@ + chars@.subrange(from as int, to as int),
{
    let mut i = from;
    while i < to
        invariant
            from <= i <= to <= chars@.len(),
            out@ == old(out)@ + chars@.subrange(from as int, i as int),
        decreases to - i,
    {
        push_char(out, chars[i]);
        i = i + 1;
        assert(chars@.subrange(from as int, i as int) == chars@.subrange(from as int, i - 1).push(
            chars@[i - 1],
        ));
    }
}

/// A `String` holding `chars[from..to]`.
pub fn string_of_range(chars: &Vec<char>, from: usize, to: usize) -> (s: String)
    requires
        from <= to <= chars@.len(),
    ensures
        s@ == chars@.subrange(from as int, to as int),
{
    let mut s = String::new();
    push_range(&mut s, chars, from, to);
    s
}

// ---------------------------------------------------------------------------
// Numbers
// ---------------------------------------------------------------------------

/// The ASCII digit for `d` (`0`..`9`, then lower-case `a`..`f`).
pub open spec fn digit_char(d: nat) -> char {
    if d < 10 {
        ((48 + d) as u8) as char
    } else {
        ((97 + d - 10) as u8) as char
    }
}

/// The decimal spelling of `n`, without leading zeros.
pub open spec fn decimal(n: nat) -> Seq<char>
    decreases n,
{
    if n < 10 {
        seq![digit_char(n)]
    } else {
        decimal(n / 10).push(digit_char(n % 10))
    }
}

/// The decimal spelling of a signed integer, with a leading `-` when negative.
pub open spec fn signed_decimal(i: int) -> Seq<char> {
    if i < 0 {
        seq!['-'] + decimal((-i) as nat)
    } else {
        decimal(i as nat)
    }
}

/// The last `width` lower-case hex digits of `n`, zero-padded on the left.
pub open spec fn hex_fixed(n: nat, width: nat) -> Seq<char>
    decreases width,
{
    if width == 0 {
        seq![]
    } else {
        hex_fixed(n / 16, (width - 1) as nat).push(digit_char(n % 16))
    }
}

/// `count` copies of `c`.
pub open spec fn repeat_char(c: char, count: nat) -> Seq<char>
    decreases count,
{
    if count == 0 {
        seq![]
    } else {
        repeat_char(c, (count - 1) as nat).push(c)
    }
}

/// The decimal spelling of `n`, left-padded with zeros to at least `width` digits.
pub open spec fn zero_padded(n: nat, width: nat) -> Seq<char> {
    let d = decimal(n);
    if d.len() < width {
        repeat_char('0', (width - d.len()) as nat) + d
    } else {
        d
    }
}

fn digit_exec(d: u64) -> (c: char)
    requires
        d < 16,
    ensures
        c == digit_char(d as nat),
{
    if d < 10 {
        let b: u8 = 48 + (d as u8);
        b as char
    } else {
        let b: u8 = 97 + ((d - 10) as u8);
        b as char
    }
}

/// Appends the decimal spelling of `n` to `out`.
pub fn push_decimal(out: &mut String, n: u64)
    ensures
        final(out)@ == old(out)@ + decimal(n as nat),
{
    push_decimal_wide(out, n as u128)
}

/// Appends the decimal spelling of a 128-bit `n` to `out`.
pub fn push_decimal_wide(out: &mut String, n: u128)
    ensures
        final(out)@ == old(out)@ + decimal(n as nat),
    decreases n,
{
    if n >= 10 {
        push_decimal_wide(out, n / 10);
    }
    push_char(out, digit_exec((n % 10) as u64));
}

/// Appends the decimal spelling of a signed integer to `out`.
pub fn push_signed_decimal(out: &mut String, i: i64)
    ensures
        final(out)@ == old(out)@ + signed_decimal(i as int),
{
    if i < 0 {
        push_char(out, '-');
        let magnitude: u64 = ((-(i + 1)) as u64) + 1;
        push_decimal(out, magnitude);
    } else {
        push_decimal(out, i as u64);
    }
}

/// The decimal spelling of `n` as a new string.
pub fn decimal_string(n: u64) -> (s: String)
    ensures
        s@ == decimal(n as nat),
{
    let mut s = String::new();
    push_decimal(&mut s, n);
    s
}

/// Appends the last `width` hex digits of `n` to `out`.
pub fn push_hex_fixed(out: &mut String, n: u64, width: u32)
    ensures
        final(out)@ == old(out)@ + hex_fixed(n as nat, width as nat),
    decreases width,
{
    if width > 0 {
        push_hex_fixed(out, n / 16, width - 1);
        push_char(out, digit_exec(n % 16));
    }
}

proof fn lemma_decimal_len_pos(n: nat)
    ensures
        decimal(n).len() >= 1,
    decreases n,
{
    if n >= 10 {
        lemma_decimal_len_pos(n / 10);
    }
}

/// Appends the decimal spelling of `n`, zero-padded to at least `width` digits.
pub fn push_zero_padded(out: &mut String, n: u64, width: usize)
    ensures
        final(out)@ == old(out)@ + zero_padded(n as nat, width as nat),
{
    let digits = decimal_string(n);
    let len = digits.unicode_len();
    if len < width {
        let mut k: usize = 0;
        let ghost start = out@;
        while k < width - len
            invariant
                k <= width - len,
                len < width,
                out@ == start + repeat_char('0', k as nat),
            decreases width - len - k,
        {
            push_char(out, '0');
            k = k + 1;
        }
        push_str(out, digits.as_str());
    } else {
        push_str(out, digits.as_str());
    }
}

// ---------------------------------------------------------------------------
// Whitespace and trimming
// ---------------------------------------------------------------------------

/// Whether `c` has the Unicode `White_Space` property (as `char::is_whitespace`).
pub open spec fn is_ws(c: char) -> bool {
    let u = c as u32;
    ||| 0x09 <= u <= 0x0d
    ||| u == 0x20
    ||| u == 0x85
    ||| u == 0xa0
    ||| u == 0x1680
    ||| 0x2000 <= u <= 0x200a
    ||| u == 0x2028
    ||| u == 0x2029
    ||| u == 0x202f
    ||| u == 0x205f
    ||| u == 0x3000
}

/// Whether `c` has the Unicode `White_Space` property.
pub fn is_whitespace(c: char) -> (b: bool)
    ensures
        b == is_ws(c),
{
    let u = c as u32;
    (0x09 <= u && u <= 0x0d) || u == 0x20 || u == 0x85 || u == 0xa0 || u == 0x1680 || (0x2000
        <= u && u <= 0x200a) || u == 0x2028 || u == 0x2029 || u == 0x202f || u == 0x205f || u
        == 0x3000
}

/// The number of leading characters of `s` for which `p` holds.
pub open spec fn leading_count(s: Seq<char>, p: spec_fn(char) -> bool) -> nat
    decreases s.len(),
{
    if s.len() > 0 && p(s[0]) {
        1 + leading_count(s.drop_first(), p)
    } else {
        0
    }
}

/// The number of trailing characters of `s` for which `p` holds.
pub open spec fn trailing_count(s: Seq<char>, p: spec_fn(char) -> bool) -> nat
    decreases s.len(),
{
    if s.len() > 0 && p(s.last()) {
        1 + trailing_count(s.drop_last(), p)
    } else {
        0
    }
}

/// `s` without leading whitespace (`str::trim_start`).
pub open spec fn trim_start(s: Seq<char>) -> Seq<char> {
    s.subrange(leading_count(s, |c: char| is_ws(c)) as int, s.len() as int)
}

/// `s` without trailing whitespace (`str::trim_end`).
pub open spec fn trim_end(s: Seq<char>) -> Seq<char> {
    s.subrange(0, s.len() - trailing_count(s, |c: char| is_ws(c)))
}

/// `s` without leading or trailing whitespace (`str::trim`).
pub open spec fn trim(s: Seq<char>) -> Seq<char> {
    trim_end(trim_start(s))
}

pub proof fn lemma_leading_count(s: Seq<char>, p: spec_fn(char) -> bool)
    ensures
        leading_count(s, p) <= s.len(),
        forall|k: int| 0 <= k < leading_count(s, p) ==> p(#[trigger] s[k]),
        leading_count(s, p) < s.len() ==> !p(s[leading_count(s, p) as int]),
    decreases s.len(),
{
    if s.len() > 0 && p(s[0]) {
        lemma_leading_count(s.drop_first(), p);
        assert forall|k: int| 0 <= k < leading_count(s, p) implies p(#[trigger] s[k]) by {
            if k > 0 {
                assert(s[k] == s.drop_first()[k - 1]);
            }
        }
    }
}

pub proof fn lemma_trailing_count(s: Seq<char>, p: spec_fn(char) -> bool)
    ensures
        trailing_count(s, p) <= s.len(),
        forall|k: int| s.len() - trailing_count(s, p) <= k < s.len() ==> p(#[trigger] s[k]),
        trailing_count(s, p) < s.len() ==> !p(s[s.len() - trailing_count(s, p) - 1]),
    decreases s.len(),
{
    if s.len() > 0 && p(s.last()) {
        let t = s.drop_last();
        lemma_trailing_count(t, p);
        assert forall|k: int| s.len() - trailing_count(s, p) <= k < s.len() implies p(
            #[trigger] s[k],
        ) by {
            if k < s.len() - 1 {
                assert(s[k] == t[k]);
            }
        }
        if trailing_count(s, p) < s.len() {
            assert(s[s.len() - trailing_count(s, p) - 1] == t[t.len() - trailing_count(t, p) - 1]);
        }
    }
}

pub proof fn lemma_leading_count_unique(s: Seq<char>, p: spec_fn(char) -> bool, n: int)
    requires
        0 <= n <= s.len(),
        forall|k: int| 0 <= k < n ==> p(#[trigger] s[k]),
        n < s.len() ==> !p(s[n]),
    ensures
        leading_count(s, p) == n,
    decreases s.len(),
{
    if n > 0 {
        assert(p(s[0]));
        assert forall|k: int| 0 <= k < n - 1 implies p(#[trigger] s.drop_first()[k]) by {
            assert(s.drop_first()[k] == s[k + 1]);
        }
        if n - 1 < s.drop_first().len() {
            assert(s.drop_first()[n - 1] == s[n]);
        }
        lemma_leading_count_unique(s.drop_first(), p, n - 1);
    }
}

pub proof fn lemma_trailing_count_unique(s: Seq<char>, p: spec_fn(char) -> bool, n: int)
    requires
        0 <= n <= s.len(),
        forall|k: int| s.len() - n <= k < s.len() ==> p(#[trigger] s[k]),
        n < s.len() ==> !p(s[s.len() - n - 1]),
    ensures
        trailing_count(s, p) == n,
    decreases s.len(),
{
    if n > 0 {
        assert(p(s.last()));
        let t = s.drop_last();
        assert forall|k: int| t.len() - (n - 1) <= k < t.len() implies p(#[trigger] t[k]) by {
            assert(t[k] == s[k]);
        }
        if n - 1 < t.len() {
            assert(t[t.len() - (n - 1) - 1] == s[s.len() - n - 1]);
        }
        lemma_trailing_count_unique(t, p, n - 1);
    }
}

/// The index of the first non-whitespace character of `s` at or after `from`
/// (or `s.len()`).
fn skip_ws_forward(s: &Vec<char>, from: usize) -> (i: usize)
    requires
        from <= s@.len(),
    ensures
        from <= i <= s@.len(),
        forall|k: int| from <= k < i ==> is_ws(#[trigger] s@[k]),
        i < s@.len() ==> !is_ws(s@[i as int]),
{
    let mut i = from;
    while i < s.len() && is_whitespace(s[i])
        invariant
            from <= i <= s@.len(),
            forall|k: int| from <= k < i ==> is_ws(#[trigger] s@[k]),
        decreases s@.len() - i,
    {
        i = i + 1;
    }
    i
}

/// The bounds `(start, end)` of `s` with whitespace trimmed from both ends.
pub fn trim_bounds(s: &Vec<char>) -> (r: (usize, usize))
    ensures
        r.0 <= r.1 <= s@.len(),
        s@.subrange(r.0 as int, r.1 as int) == trim(s@),
        s@.subrange(r.0 as int, s@.len() as int) == trim_start(s@),
{
    let start = skip_ws_forward(s, 0);
    proof {
        lemma_leading_count_unique(s@, |c: char| is_ws(c), start as int);
    }
    let mut end = s.len();
    while end > start && is_whitespace(s[end - 1])
        invariant
            start <= end <= s@.len(),
            forall|k: int| end <= k < s@.len() ==> is_ws(#[trigger] s@[k]),
        decreases end,
    {
        end = end - 1;
    }
    proof {
        let t = s@.subrange(start as int, s@.len() as int);
        assert(trim_start(s@) == t);
        let n = (s@.len() - end) as int;
        assert forall|k: int| t.len() - n <= k < t.len() implies is_ws(#[trigger] t[k]) by {
            assert(t[k] == s@[start + k]);
        }
        if n < t.len() {
            assert(t[t.len() - n - 1] == s@[end - 1]);
        }
        lemma_trailing_count_unique(t, |c: char| is_ws(c), n);
        assert(trim_end(t) == t.subrange(0, t.len() - n));
        assert(t.subrange(0, t.len() - n) == s@.subrange(start as int, end as int));
    }
    (start, end)
}

/// `s` with whitespace trimmed from both ends (`str::trim`).
pub fn trimmed(s: &str) -> (r: String)
    ensures
        r@ == trim(s@),
{
    let chars = chars_of(s);
    let (a, b) = trim_bounds(&chars);
    string_of_range(&chars, a, b)
}

/// `s` with leading whitespace removed (`str::trim_start`).
pub fn trim_start_string(s: &str) -> (r: String)
    ensures
        r@ == trim_start(s@),
{
    let chars = chars_of(s);
    let (a, _b) = trim_bounds(&chars);
    string_of_range(&chars, a, chars.len())
}

/// Whether two strings hold the same characters.
pub fn str_eq(a: &str, b: &str) -> (r: bool)
    ensures
        r == (a@ == b@),
{
    let x = chars_of(a);
    let y = chars_of(b);
    if x.len() != y.len() {
        return false;
    }
    let mut i: usize = 0;
    while i < x.len()
        invariant
            i <= x@.len(),
            x@.len() == y@.len(),
            x@ == a@,
            y@ == b@,
            forall|j: int| 0 <= j < i ==> x@[j] == y@[j],
        decreases x@.len() - i,
    {
        if x[i] != y[i] {
            return false;
        }
        i = i + 1;
    }
    assert(x@ =~= y@);
    true
}

/// Whether `s` is empty after trimming whitespace.
pub fn is_blank(s: &str) -> (b: bool)
    ensures
        b == (trim(s@).len() == 0),
{
    let chars = chars_of(s);
    let (a, e) = trim_bounds(&chars);
    a == e
}

// ---------------------------------------------------------------------------
// Prefixes, substrings and replacement
// ---------------------------------------------------------------------------

/// Whether `p` occurs in `s` starting at index `i`.
pub open spec fn occurs_at(s: Seq<char>, p: Seq<char>, i: int) -> bool {
    0 <= i && i + p.len() <= s.len() && s.subrange(i, i + p.len()) == p
}

/// Whether `s` starts with `p` (`str::starts_with`).
pub open spec fn has_prefix(s: Seq<char>, p: Seq<char>) -> bool {
    occurs_at(s, p, 0)
}

/// Whether `p` occurs anywhere in `s` (`str::contains`).
pub open spec fn contains(s: Seq<char>, p: Seq<char>) -> bool {
    exists|i: int| occurs_at(s, p, i)
}

/// Whether `p` occurs in `s` starting at index `i`.
pub fn occurs_at_exec(s: &Vec<char>, p: &Vec<char>, i: usize) -> (b: bool)
    ensures
        b == occurs_at(s@, p@, i as int),
{
    let n = s.len();
    if i > n || p.len() > n - i {
        return false;
    }
    let mut k: usize = 0;
    while k < p.len()
        invariant
            n == s@.len(),
            i + p@.len() <= s@.len(),
            k <= p@.len(),
            forall|j: int| 0 <= j < k ==> s@[i + j] == p@[j],
        decreases p@.len() - k,
    {
        assert(i + k < s@.len());
        if s[i + k] != p[k] {
            assert(s@.subrange(i as int, i + p@.len())[k as int] != p@[k as int]);
            return false;
        }
        k = k + 1;
    }
    assert(s@.subrange(i as int, i + p@.len()) == p@);
    true
}

/// Whether `s` starts with `p` (`str::starts_with`).
pub fn starts_with(s: &str, p: &str) -> (b: bool)
    ensures
        b == has_prefix(s@, p@),
{
    let sc = chars_of(s);
    let pc = chars_of(p);
    occurs_at_exec(&sc, &pc, 0)
}

/// Whether `p` occurs in the characters `s` (`str::contains`).
pub fn contains_chars(s: &Vec<char>, p: &Vec<char>) -> (b: bool)
    ensures
        b == contains(s@, p@),
{
    if p.len() > s.len() {
        assert forall|i: int| !occurs_at(s@, p@, i) by {}
        return false;
    }
    let last = s.len() - p.len();
    let mut i: usize = 0;
    while i < last
        invariant
            p@.len() <= s@.len(),
            last == s@.len() - p@.len(),
            i <= last,
            forall|j: int| 0 <= j < i ==> !occurs_at(s@, p@, j),
        decreases last - i,
    {
        if occurs_at_exec(s, p, i) {
            return true;
        }
        i = i + 1;
    }
    if occurs_at_exec(s, p, last) {
        return true;
    }
    assert forall|j: int| !occurs_at(s@, p@, j) by {
        if 0 <= j <= i {
        }
    }
    false
}

/// Whether `p` occurs in `s` (`str::contains`).
pub fn contains_str(s: &str, p: &str) -> (b: bool)
    ensures
        b == contains(s@, p@),
{
    let sc = chars_of(s);
    let pc = chars_of(p);
    contains_chars(&sc, &pc)
}

/// `s` with every non-overlapping occurrence of `from` replaced by `to`, scanning
/// left to right (`str::replace` with a non-empty pattern).
pub open spec fn replace_all(s: Seq<char>, from: Seq<char>, to: Seq<char>) -> Seq<char>
    recommends
        from.len() > 0,
    decreases s.len(),
{
    if from.len() == 0 || s.len() < from.len() {
        s
    } else if s.subrange(0, from.len() as int) == from {
        to + replace_all(s.subrange(from.len() as int, s.len() as int), from, to)
    } else {
        seq![s[0]] + replace_all(s.drop_first(), from, to)
    }
}

/// `s` with every non-overlapping occurrence of `from` replaced by `to`.
pub fn replace(s: &str, from: &str, to: &str) -> (r: String)
    requires
        from@.len() > 0,
    ensures
        r@ == replace_all(s@, from@, to@),
{
    let sc = chars_of(s);
    let fc = chars_of(from);
    let mut out = String::new();
    let mut i: usize = 0;
    assert(sc@.subrange(0, sc@.len() as int) == sc@);
    while i < sc.len()
        invariant
            i <= sc@.len(),
            fc@ == from@,
            fc@.len() > 0,
            out@ + replace_all(sc@.subrange(i as int, sc@.len() as int), from@, to@)
                == replace_all(s@, from@, to@),
            sc@ == s@,
        decreases sc@.len() - i,
    {
        let ghost rest = sc@.subrange(i as int, sc@.len() as int);
        if occurs_at_exec(&sc, &fc, i) {
            assert(rest.subrange(0, fc@.len() as int) == fc@);
            assert(rest.subrange(fc@.len() as int, rest.len() as int) == sc@.subrange(
                i + fc@.len(),
                sc@.len() as int,
            ));
            push_str(&mut out, to);
            i = i + fc.len();
        } else {
            proof {
                if rest.len() >= fc@.len() {
                    if rest.subrange(0, fc@.len() as int) == fc@ {
                        assert(sc@.subrange(i as int, i + fc@.len()) == rest.subrange(
                            0,
                            fc@.len() as int,
                        ));
                    }
                }
            }
            assert(rest.drop_first() == sc@.subrange(i + 1, sc@.len() as int));
            push_char(&mut out, sc[i]);
            i = i + 1;
        }
    }
    assert(sc@.subrange(i as int, sc@.len() as int).len() == 0);
    out
}

/// Replacing a pattern that occurs nowhere in `s` leaves `s` as it is.
pub proof fn lemma_replace_all_absent(s: Seq<char>, from: Seq<char>, to: Seq<char>)
    requires
        from.len() > 0,
        forall|i: int| !occurs_at(s, from, i),
    ensures
        replace_all(s, from, to) == s,
    decreases s.len(),
{
    if s.len() >= from.len() {
        assert(!occurs_at(s, from, 0));
        let t = s.drop_first();
        assert forall|i: int| !occurs_at(t, from, i) by {
            if occurs_at(t, from, i) {
                assert(s.subrange(i + 1, i + 1 + from.len()) =~= t.subrange(i, i + from.len()));
                assert(occurs_at(s, from, i + 1));
            }
        }
        lemma_replace_all_absent(t, from, to);
        assert(s =~= seq![s[0]] + t);
    }
}

/// Replacing a pattern in the pattern itself gives the replacement.
pub proof fn lemma_replace_all_whole(from: Seq<char>, to: Seq<char>)
    requires
        from.len() > 0,
    ensures
        replace_all(from, from, to) == to,
{
    assert(from.subrange(0, from.len() as int) =~= from);
    let rest = from.subrange(from.len() as int, from.len() as int);
    assert(rest.len() == 0);
    assert(replace_all(rest, from, to) == rest);
    assert(to + rest =~= to);
}

// ---------------------------------------------------------------------------
// Lines
// ---------------------------------------------------------------------------

/// The index of the first `'\n'` in `s` at or after `i`, or `s.len()`.
pub open spec fn next_newline(s: Seq<char>, i: int) -> int
    decreases s.len() - i,
{
    if i >= s.len() || i < 0 {
        s.len() as int
    } else if s[i] == '\n' {
        i
    } else {
        next_newline(s, i + 1)
    }
}

/// The line that starts at `i` and ends at the newline `j` (exclusive); a `'\r'`
/// before the newline is dropped.
pub open spec fn line_between(s: Seq<char>, i: int, j: int) -> Seq<char> {
    let raw = s.subrange(i, j);
    if j < s.len() && raw.len() > 0 && raw.last() == '\r' {
        raw.drop_last()
    } else {
        raw
    }
}

/// The lines of `s` from index `i` on, as `str::lines` splits them.
pub open spec fn lines_from(s: Seq<char>, i: int) -> Seq<Seq<char>>
    decreases s.len() - i,
{
    if i >= s.len() || i < 0 {
        seq![]
    } else {
        let j = next_newline(s, i);
        if j < i || j >= s.len() {
            seq![line_between(s, i, s.len() as int)]
        } else {
            seq![line_between(s, i, j)] + lines_from(s, j + 1)
        }
    }
}

/// The lines of `s` (`str::lines`): split at `"\n"` or `"\r\n"`, with no empty
/// line after a final line ending.
pub open spec fn lines(s: Seq<char>) -> Seq<Seq<char>> {
    lines_from(s, 0)
}

pub proof fn lemma_next_newline(s: Seq<char>, i: int)
    requires
        0 <= i <= s.len(),
    ensures
        i <= next_newline(s, i) <= s.len(),
        forall|k: int| i <= k < next_newline(s, i) ==> s[k] != '\n',
        next_newline(s, i) < s.len() ==> s[next_newline(s, i)] == '\n',
    decreases s.len() - i,
{
    if i < s.len() && s[i] != '\n' {
        lemma_next_newline(s, i + 1);
    }
}

pub proof fn lemma_next_newline_unique(s: Seq<char>, i: int, j: int)
    requires
        0 <= i <= j <= s.len(),
        forall|k: int| i <= k < j ==> s[k] != '\n',
        j < s.len() ==> s[j] == '\n',
    ensures
        next_newline(s, i) == j,
    decreases j - i,
{
    if i < j {
        lemma_next_newline_unique(s, i + 1, j);
    }
}

/// Whether `l` holds no line break character (`'\n'` or `'\r'`).
pub open spec fn single_line(l: Seq<char>) -> bool {
    forall|k: int| 0 <= k < l.len() ==> l[k] != '\n' && l[k] != '\r'
}

/// The text of `ls`, each line followed by a newline.
pub open spec fn text_of_lines(ls: Seq<Seq<char>>) -> Seq<char>
    decreases ls.len(),
{
    if ls.len() == 0 {
        seq![]
    } else {
        text_of_lines(ls.drop_last()) + ls.last() + seq!['\n']
    }
}

pub proof fn lemma_text_of_lines_concat(a: Seq<Seq<char>>, b: Seq<Seq<char>>)
    ensures
        text_of_lines(a + b) == text_of_lines(a) + text_of_lines(b),
    decreases b.len(),
{
    if b.len() == 0 {
        assert(a + b == a);
    } else {
        assert((a + b).drop_last() == a + b.drop_last());
        lemma_text_of_lines_concat(a, b.drop_last());
        assert((a + b).last() == b.last());
    }
}

proof fn lemma_next_newline_shift(p: Seq<char>, q: Seq<char>, k: int)
    requires
        0 <= k <= q.len(),
    ensures
        next_newline(p + q, p.len() + k) == p.len() + next_newline(q, k),
    decreases q.len() - k,
{
    if k < q.len() {
        assert((p + q)[p.len() + k] == q[k]);
        if q[k] != '\n' {
            lemma_next_newline_shift(p, q, k + 1);
        }
    }
}

proof fn lemma_lines_from_shift(p: Seq<char>, q: Seq<char>, k: int)
    requires
        0 <= k <= q.len(),
    ensures
        lines_from(p + q, p.len() + k) == lines_from(q, k),
    decreases q.len() - k,
{
    if k < q.len() {
        lemma_next_newline_shift(p, q, k);
        lemma_next_newline(q, k);
        let j = next_newline(q, k);
        assert((p + q).subrange(p.len() + k, p.len() + j) == q.subrange(k, j));
        if j < q.len() {
            lemma_lines_from_shift(p, q, j + 1);
        }
    }
}

proof fn lemma_lines_from_concat(p: Seq<char>, q: Seq<char>, i: int)
    requires
        p.len() > 0,
        p.last() == '\n',
        0 <= i <= p.len(),
    ensures
        lines_from(p + q, i) == lines_from(p, i) + lines(q),
    decreases p.len() - i,
{
    if i == p.len() {
        lemma_lines_from_shift(p, q, 0);
        assert(lines_from(p, i) + lines(q) == lines(q));
    } else {
        lemma_next_newline(p, i);
        let j = next_newline(p, i);
        if j == p.len() {
            assert(p[p.len() - 1] != '\n');
        }
        assert forall|k: int| i <= k < j implies (p + q)[k] != '\n' by {
            assert((p + q)[k] == p[k]);
        }
        assert((p + q)[j] == p[j]);
        lemma_next_newline_unique(p + q, i, j);
        assert((p + q).subrange(i, j) == p.subrange(i, j));
        lemma_lines_from_concat(p, q, j + 1);
        let lb = line_between(p, i, j);
        assert(line_between(p + q, i, j) == lb);
        assert(seq![lb] + (lines_from(p, j + 1) + lines(q)) == (seq![lb] + lines_from(p, j + 1))
            + lines(q));
    }
}

proof fn lemma_single_line_text(l: Seq<char>)
    requires
        single_line(l),
    ensures
        lines(l + seq!['\n']) == seq![l],
{
    let s = l + seq!['\n'];
    assert forall|k: int| 0 <= k < l.len() implies s[k] != '\n' by {
        assert(s[k] == l[k]);
    }
    lemma_next_newline_unique(s, 0, l.len() as int);
    assert(s.subrange(0, l.len() as int) == l);
    if l.len() > 0 {
        assert(l.last() != '\r');
    }
    assert(line_between(s, 0, l.len() as int) == l);
    assert(lines_from(s, (l.len() + 1) as int) == Seq::<Seq<char>>::empty());
}

/// Splitting the text of single-line lines, each followed by a newline, gives
/// the lines back.
pub proof fn lemma_lines_of_text(ls: Seq<Seq<char>>)
    requires
        forall|i: int| 0 <= i < ls.len() ==> single_line(#[trigger] ls[i]),
    ensures
        lines(text_of_lines(ls)) == ls,
    decreases ls.len(),
{
    if ls.len() > 0 {
        let init = ls.drop_last();
        assert forall|i: int| 0 <= i < init.len() implies single_line(#[trigger] init[i]) by {
            assert(init[i] == ls[i]);
        }
        lemma_lines_of_text(init);
        let p = text_of_lines(init);
        let q = ls.last() + seq!['\n'];
        assert(single_line(ls[ls.len() - 1]));
        lemma_single_line_text(ls.last());
        assert(text_of_lines(ls) == p + q);
        if init.len() == 0 {
            assert(p == Seq::<char>::empty());
            assert(p + q == q);
            assert(ls == seq![ls.last()]);
        } else {
            assert(p.last() == '\n');
            lemma_lines_from_concat(p, q, 0);
            assert(lines(p + q) == init + seq![ls.last()]);
            assert(ls == init + seq![ls.last()]);
        }
    }
}

/// Finds the end of the line starting at `i`: the index of the next `'\n'`.
pub fn find_newline(s: &Vec<char>, i: usize) -> (j: usize)
    requires
        i <= s@.len(),
    ensures
        j == next_newline(s@, i as int),
        i <= j <= s@.len(),
{
    let mut j = i;
    while j < s.len() && s[j] != '\n'
        invariant
            i <= j <= s@.len(),
            forall|k: int| i <= k < j ==> s@[k] != '\n',
        decreases s@.len() - j,
    {
        j = j + 1;
    }
    proof {
        lemma_next_newline_unique(s@, i as int, j as int);
    }
    j
}

/// The end (exclusive) of the line content between `i` and the newline at `j`,
/// dropping a `'\r'` that precedes the newline.
pub fn line_end(s: &Vec<char>, i: usize, j: usize) -> (e: usize)
    requires
        i <= j <= s@.len(),
    ensures
        i <= e <= j,
        s@.subrange(i as int, e as int) == line_between(s@, i as int, j as int),
{
    if j < s.len() && j > i && s[j - 1] == '\r' {
        let ghost raw = s@.subrange(i as int, j as int);
        assert(raw.drop_last() == s@.subrange(i as int, j - 1));
        j - 1
    } else {
        j
    }
}

} // verus!
