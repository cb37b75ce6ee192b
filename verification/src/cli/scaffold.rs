//! Pure helpers for scaffolding a new migration file: revision ids, slugs, file
//! names, and the template a new migration starts from.

use vstd::prelude::*;

use crate::config::{ascii_lower_char, ascii_lower_char_exec, RevisionStyle};
use crate::dialect::sql::hex_bytes;
use crate::text::{lemma_trailing_count, 
    chars_of, lemma_leading_count_unique, lemma_trailing_count_unique, leading_count, owned,
    digit_char, hex_fixed, push_char, push_hex_fixed, push_str, push_zero_padded, replace, replace_all,
    string_of_range, trailing_count, zero_padded, occurs_at, lemma_replace_all_absent,
    lemma_replace_all_whole,
};

verus! {

/// Whether `c` is an ASCII letter or digit.
pub open spec fn is_ascii_alnum(c: char) -> bool {
    ('a' <= c && c <= 'z') || ('A' <= c && c <= 'Z') || ('0' <= c && c <= '9')
}

/// Whether `c` is a lower-case ASCII hex digit.
pub open spec fn is_lower_hex(c: char) -> bool {
    ('0' <= c && c <= '9') || ('a' <= c && c <= 'f')
}

/// The sixteen bytes of a fresh random (version 4) uuid: `uuid::Uuid::new_v4`,
/// read out with `Uuid::into_bytes`. They come from the system's random source,
/// so nothing is stated of them.
#[verifier::external_body]
fn random_uuid_bytes() -> [u8; 16] {
    uuid::Uuid::new_v4().into_bytes()
}

proof fn lemma_hex_digit(d: nat)
    requires
        d < 16,
    ensures
        is_lower_hex(digit_char(d)),
{
    if d < 10 {
        assert(((48 + d) as u8) as char == digit_char(d));
        assert(('0' as int) == 48);
    } else {
        assert(('a' as int) == 97);
    }
}

proof fn lemma_hex_fixed(n: nat, width: nat)
    ensures
        hex_fixed(n, width).len() == width,
        forall|i: int| 0 <= i < width ==> is_lower_hex(#[trigger] hex_fixed(n, width)[i]),
    decreases width,
{
    if width > 0 {
        lemma_hex_fixed(n / 16, (width - 1) as nat);
        lemma_hex_digit(n % 16);
    }
}

/// Two lower-case hex digits per byte: the text is twice as long as the bytes and
/// holds nothing but hex digits.
proof fn lemma_hex_bytes(b: Seq<u8>)
    ensures
        hex_bytes(b).len() == 2 * b.len(),
        forall|i: int| 0 <= i < hex_bytes(b).len() ==> is_lower_hex(#[trigger] hex_bytes(b)[i]),
    decreases b.len(),
{
    if b.len() > 0 {
        lemma_hex_bytes(b.drop_last());
        lemma_hex_fixed(b.last() as nat, 2);
        let h = hex_bytes(b.drop_last());
        let t = hex_fixed(b.last() as nat, 2);
        assert forall|i: int| 0 <= i < hex_bytes(b).len() implies is_lower_hex(#[trigger] hex_bytes(b)[i]) by {
            if i < h.len() {
                assert(hex_bytes(b)[i] == h[i]);
            } else {
                assert(hex_bytes(b)[i] == t[i - h.len()]);
            }
        }
    }
}

/// The `simple` form of the uuid with the given bytes, as `Uuid::simple` writes
/// it: two lower-case hex digits per byte, with no separators.
pub fn simple_uuid_text(bytes: &[u8; 16]) -> (s: String)
    ensures
        s@ == hex_bytes(bytes@),
{
    let mut s = String::new();
    let mut i: usize = 0;
    while i < 16
        invariant
            i <= 16,
            bytes@.len() == 16,
            s@ == hex_bytes(bytes@.take(i as int)),
        decreases 16 - i,
    {
        assert(bytes@.take(i + 1).drop_last() == bytes@.take(i as int));
        push_hex_fixed(&mut s, bytes[i] as u64, 2);
        i = i + 1;
    }
    assert(bytes@.take(16) == bytes@);
    s
}

/// Generates a fresh 12-character hex revision id: the first 12 digits of the
/// `simple` form of a random (version 4) uuid.
pub fn new_revision() -> (r: String)
    ensures
        r@.len() == 12,
        forall|i: int| 0 <= i < 12 ==> is_lower_hex(#[trigger] r@[i]),
        exists|b: Seq<u8>| b.len() == 16 && r@ == hex_bytes(b).take(12),
{
    let bytes = random_uuid_bytes();
    let full = simple_uuid_text(&bytes);
    proof {
        lemma_hex_bytes(bytes@);
    }
    let chars = chars_of(full.as_str());
    let r = string_of_range(&chars, 0, 12);
    assert(r@ == hex_bytes(bytes@).take(12));
    r
}

/// Returns the revision id for a new migration given the configured style.
///
/// `Hash` produces a fresh 12-character id; `Sequence` produces a zero-padded
/// number one greater than the count of existing migrations.
pub fn revision_id(style: RevisionStyle, existing_count: usize) -> (r: String)
    requires
        existing_count < usize::MAX,
    ensures
        style == RevisionStyle::Sequence ==> r@ == zero_padded((existing_count + 1) as nat, 4),
        style == RevisionStyle::Hash ==> r@.len() == 12 && forall|i: int|
            0 <= i < 12 ==> is_lower_hex(#[trigger] r@[i]),
{
    match style {
        RevisionStyle::Hash => new_revision(),
        RevisionStyle::Sequence => {
            let mut s = String::new();
            push_zero_padded(&mut s, (existing_count + 1) as u64, 4);
            s
        },
    }
}

/// The characters of `name` mapped to snake case before the final trim: ASCII
/// letters and digits kept (lower-cased), and each run of other characters
/// collapsed to one `_`, never at the start.
pub open spec fn snake_raw(name: Seq<char>) -> Seq<char>
    decreases name.len(),
{
    if name.len() == 0 {
        seq![]
    } else {
        let acc = snake_raw(name.drop_last());
        let c = name.last();
        if is_ascii_alnum(c) {
            acc.push(ascii_lower_char(c))
        } else if acc.len() > 0 && acc.last() != '_' {
            acc.push('_')
        } else {
            acc
        }
    }
}

/// `s` without leading or trailing `_` (`str::trim_matches('_')`).
pub open spec fn trim_underscores(s: Seq<char>) -> Seq<char> {
    let t = s.subrange(leading_count(s, |c: char| c == '_') as int, s.len() as int);
    t.subrange(0, t.len() - trailing_count(t, |c: char| c == '_'))
}

/// `name` in `snake_case`, keeping only ASCII alphanumerics.
pub open spec fn snake(name: Seq<char>) -> Seq<char> {
    trim_underscores(snake_raw(name))
}

/// Whether `c` may appear in a snake-case name: a lower-case ASCII letter, a
/// digit, or `_`.
pub open spec fn is_snake_char(c: char) -> bool {
    ('a' <= c && c <= 'z') || ('0' <= c && c <= '9') || c == '_'
}

/// Whether `s` is made of snake-case characters, holds no `__`, and does not
/// start with `_`.
pub open spec fn snake_shaped(s: Seq<char>) -> bool {
    &&& forall|i: int| 0 <= i < s.len() ==> is_snake_char(#[trigger] s[i])
    &&& forall|i: int| 0 <= i < s.len() - 1 ==> !(#[trigger] s[i] == '_' && s[i + 1] == '_')
    &&& s.len() > 0 ==> s[0] != '_'
}

proof fn lemma_snake_raw_shaped(name: Seq<char>)
    ensures
        snake_shaped(snake_raw(name)),
    decreases name.len(),
{
    if name.len() > 0 {
        lemma_snake_raw_shaped(name.drop_last());
        let acc = snake_raw(name.drop_last());
        let c = name.last();
        if is_ascii_alnum(c) {
            let r = acc.push(ascii_lower_char(c));
            assert(is_snake_char(ascii_lower_char(c)));
            assert forall|i: int| 0 <= i < r.len() implies is_snake_char(#[trigger] r[i]) by {
                if i < acc.len() {
                    assert(r[i] == acc[i]);
                }
            }
            assert forall|i: int| 0 <= i < r.len() - 1 implies !(#[trigger] r[i] == '_' && r[i + 1]
                == '_') by {
                if i < acc.len() - 1 {
                    assert(r[i] == acc[i] && r[i + 1] == acc[i + 1]);
                }
            }
        } else if acc.len() > 0 && acc.last() != '_' {
            let r = acc.push('_');
            assert forall|i: int| 0 <= i < r.len() implies is_snake_char(#[trigger] r[i]) by {
                if i < acc.len() {
                    assert(r[i] == acc[i]);
                }
            }
            assert forall|i: int| 0 <= i < r.len() - 1 implies !(#[trigger] r[i] == '_' && r[i + 1]
                == '_') by {
                if i < acc.len() - 1 {
                    assert(r[i] == acc[i] && r[i + 1] == acc[i + 1]);
                } else {
                    assert(r[i] == acc.last());
                }
            }
        }
    }
}

proof fn lemma_snake_raw_of_shaped(s: Seq<char>)
    requires
        snake_shaped(s),
    ensures
        snake_raw(s) == s,
    decreases s.len(),
{
    if s.len() > 0 {
        let p = s.drop_last();
        assert forall|i: int| 0 <= i < p.len() implies is_snake_char(#[trigger] p[i]) by {
            assert(p[i] == s[i]);
        }
        assert forall|i: int| 0 <= i < p.len() - 1 implies !(#[trigger] p[i] == '_' && p[i + 1]
            == '_') by {
            assert(p[i] == s[i] && p[i + 1] == s[i + 1]);
        }
        lemma_snake_raw_of_shaped(p);
        let c = s.last();
        assert(is_snake_char(s[s.len() - 1]));
        if c == '_' {
            assert(p.len() > 0);
            assert(!(s[s.len() - 2] == '_' && s[s.len() - 1] == '_'));
            assert(p.last() == s[s.len() - 2]);
            assert(s == p.push('_'));
        } else {
            assert(is_ascii_alnum(c));
            assert(ascii_lower_char(c) == c);
            assert(s == p.push(c));
        }
    }
}

proof fn lemma_trim_shaped(s: Seq<char>)
    requires
        snake_shaped(s),
    ensures
        snake_shaped(trim_underscores(s)),
        trim_underscores(s).len() > 0 ==> trim_underscores(s).last() != '_',
{
    assert(leading_count(s, |c: char| c == '_') == 0);
    let t = s.subrange(0, s.len() as int);
    assert(t == s);
    let n = trailing_count(t, |c: char| c == '_');
    lemma_trailing_count(t, |c: char| c == '_');
    let r = t.subrange(0, t.len() - n);
    assert(trim_underscores(s) == r);
    assert forall|i: int| 0 <= i < r.len() implies is_snake_char(#[trigger] r[i]) by {
        assert(r[i] == s[i]);
    }
    assert forall|i: int| 0 <= i < r.len() - 1 implies !(#[trigger] r[i] == '_' && r[i + 1] == '_') by {
        assert(r[i] == s[i] && r[i + 1] == s[i + 1]);
    }
    if r.len() > 0 {
        assert(r.last() == t[t.len() - n - 1]);
    }
}

/// Normalizing a name twice changes nothing more: the snake-case form of a
/// snake-case name is that name.
pub proof fn lemma_snake_idempotent(name: Seq<char>)
    ensures
        snake(snake(name)) == snake(name),
{
    let r = snake(name);
    lemma_snake_raw_shaped(name);
    lemma_trim_shaped(snake_raw(name));
    lemma_snake_raw_of_shaped(r);
    assert(leading_count(r, |c: char| c == '_') == 0);
    assert(r.subrange(0, r.len() as int) == r);
    assert(trailing_count(r, |c: char| c == '_') == 0);
    assert(r.subrange(0, r.len() as int) == r);
}

/// Converts a name to `snake_case`, keeping only ASCII alphanumerics.
pub fn snake_case(name: &str) -> (r: String)
    ensures
        r@ == snake(name@),
{
    let chars = chars_of(name);
    let mut out: Vec<char> = Vec::new();
    let mut i: usize = 0;
    while i < chars.len()
        invariant
            i <= chars@.len(),
            chars@ == name@,
            out@ == snake_raw(chars@.take(i as int)),
        decreases chars@.len() - i,
    {
        let c = chars[i];
        assert(chars@.take(i + 1).drop_last() == chars@.take(i as int));
        let alnum = ('a' <= c && c <= 'z') || ('A' <= c && c <= 'Z') || ('0' <= c && c <= '9');
        if alnum {
            out.push(ascii_lower_char_exec(c));
        } else if out.len() > 0 && out[out.len() - 1] != '_' {
            out.push('_');
        }
        i = i + 1;
    }
    assert(chars@.take(i as int) == name@);
    let (a, b) = trim_underscore_bounds(&out);
    string_of_range(&out, a, b)
}

/// The bounds of `s` with `_` trimmed from both ends.
fn trim_underscore_bounds(s: &Vec<char>) -> (r: (usize, usize))
    ensures
        r.0 <= r.1 <= s@.len(),
        s@.subrange(r.0 as int, r.1 as int) == trim_underscores(s@),
{
    let mut a: usize = 0;
    while a < s.len() && s[a] == '_'
        invariant
            a <= s@.len(),
            forall|k: int| 0 <= k < a ==> #[trigger] s@[k] == '_',
        decreases s@.len() - a,
    {
        a = a + 1;
    }
    proof {
        lemma_leading_count_unique(s@, |c: char| c == '_', a as int);
    }
    let mut b = s.len();
    while b > a && s[b - 1] == '_'
        invariant
            a <= b <= s@.len(),
            forall|k: int| b <= k < s@.len() ==> #[trigger] s@[k] == '_',
        decreases b,
    {
        b = b - 1;
    }
    proof {
        let t = s@.subrange(a as int, s@.len() as int);
        let n = (s@.len() - b) as int;
        assert forall|k: int| t.len() - n <= k < t.len() implies (|c: char| c == '_')(
            #[trigger] t[k],
        ) by {
            assert(t[k] == s@[a + k]);
        }
        if n < t.len() {
            assert(t[t.len() - n - 1] == s@[b - 1]);
        }
        lemma_trailing_count_unique(t, |c: char| c == '_', n);
        assert(t.subrange(0, t.len() - n) == s@.subrange(a as int, b as int));
    }
    (a, b)
}

/// The number of bytes of the UTF-8 encoding of `s` (what `str::len` counts).
pub open spec fn utf8_len(s: Seq<char>) -> nat {
    vstd::utf8::encode_utf8(s).len()
}

/// Whether `max` bytes end on a character boundary of `s`, or lie past its end:
/// the inputs on which `&slug[..max]` does not panic.
pub open spec fn cuttable(s: Seq<char>, max: nat) -> bool {
    utf8_len(s) <= max || exists|k: int| 0 <= k <= s.len() && #[trigger] utf8_len(s.take(k)) == max
}

/// The number of characters of `s` that its first `max` bytes hold.
pub open spec fn cut_point(s: Seq<char>, max: nat) -> int {
    choose|k: int| 0 <= k <= s.len() && #[trigger] utf8_len(s.take(k)) == max
}

/// `s` without its trailing `_`.
pub open spec fn without_trailing_underscores(s: Seq<char>) -> Seq<char> {
    s.take(s.len() - trailing_count(s, |c: char| c == '_'))
}

/// `slug` cut to its first `max` bytes, then stripped of trailing `_`.
pub open spec fn truncated(slug: Seq<char>, max: nat) -> Seq<char> {
    if utf8_len(slug) <= max {
        without_trailing_underscores(slug)
    } else {
        without_trailing_underscores(slug.take(cut_point(slug, max)))
    }
}

proof fn lemma_encode_concat(a: Seq<char>, b: Seq<char>)
    ensures
        vstd::utf8::encode_utf8(a + b) == vstd::utf8::encode_utf8(a) + vstd::utf8::encode_utf8(b),
    decreases a.len(),
{
    if a.len() > 0 {
        assert((a + b).drop_first() == a.drop_first() + b);
        assert((a + b)[0] == a[0]);
        lemma_encode_concat(a.drop_first(), b);
    }
}

/// One character more adds its width, at least one byte.
proof fn lemma_utf8_step(s: Seq<char>, i: int)
    requires
        0 <= i < s.len(),
    ensures
        utf8_len(s.take(i + 1)) == utf8_len(s.take(i)) + vstd::utf8::encode_scalar(s[i] as u32).len(),
        utf8_len(s.take(i + 1)) > utf8_len(s.take(i)),
{
    assert(s.take(i + 1) == s.take(i) + seq![s[i]]);
    lemma_encode_concat(s.take(i), seq![s[i]]);
    let one = seq![s[i]];
    assert(one.drop_first() =~= Seq::<char>::empty());
    assert(one[0] == s[i]);
    assert(vstd::utf8::encode_utf8(one.drop_first()) =~= Seq::<u8>::empty());
    assert(vstd::utf8::encode_utf8(one) =~= vstd::utf8::encode_scalar(s[i] as u32));
}

/// Longer prefixes take more bytes.
proof fn lemma_utf8_increasing(s: Seq<char>, i: int, j: int)
    requires
        0 <= i < j <= s.len(),
    ensures
        utf8_len(s.take(i)) < utf8_len(s.take(j)),
    decreases j - i,
{
    lemma_utf8_step(s, j - 1);
    if i < j - 1 {
        lemma_utf8_increasing(s, i, j - 1);
    }
}

/// The byte width of a character's UTF-8 encoding.
fn char_width(c: char) -> (n: usize)
    ensures
        n == vstd::utf8::encode_scalar(c as u32).len(),
        1 <= n <= 4,
{
    broadcast use vstd::utf8::char_is_scalar;
    let v = c as u32;
    if v < 0x80 {
        1
    } else if v < 0x800 {
        2
    } else if v < 0x10000 {
        3
    } else {
        4
    }
}

/// A truncated slug holds at most `max` bytes, is a prefix of the slug, and never
/// ends in `_`.
pub proof fn lemma_truncated_slug(slug: Seq<char>, max: nat)
    requires
        cuttable(slug, max),
    ensures
        utf8_len(truncated(slug, max)) <= max,
        truncated(slug, max) == slug.take(truncated(slug, max).len() as int),
        truncated(slug, max).len() > 0 ==> truncated(slug, max).last() != '_',
{
    let src = if utf8_len(slug) <= max {
        slug
    } else {
        slug.take(cut_point(slug, max))
    };
    let k = if utf8_len(slug) <= max {
        slug.len() as int
    } else {
        cut_point(slug, max)
    };
    assert(slug.take(slug.len() as int) == slug);
    assert(src == slug.take(k));
    assert(utf8_len(src) <= max);
    let n = trailing_count(src, |c: char| c == '_');
    lemma_trailing_count(src, |c: char| c == '_');
    let r = src.take(src.len() - n);
    assert(r == slug.take(r.len() as int));
    if r.len() > 0 {
        assert(r.last() == src[src.len() - n - 1]);
    }
    if r.len() < k {
        lemma_utf8_increasing(slug, r.len() as int, k);
    }
}

/// Truncates a slug to at most `max` bytes, never leaving a trailing `_`.
///
/// `max` must fall on a character boundary of a slug longer than `max` bytes
/// (slugs from [`snake_case`] are ASCII, where every position is one).
pub fn truncate_slug(slug: &str, max: usize) -> (r: String)
    requires
        cuttable(slug@, max as nat),
    ensures
        r@ == truncated(slug@, max as nat),
{
    let chars = chars_of(slug);
    let total = slug.as_bytes().len();
    assert(utf8_len(slug@) == total);
    let mut end: usize = chars.len();
    if total > max {
        let mut i: usize = 0;
        let mut acc: usize = 0;
        while acc < max
            invariant
                i <= chars@.len(),
                chars@ == slug@,
                acc as nat == utf8_len(slug@.take(i as int)),
                utf8_len(slug@) == total,
                total > max,
                i > 0 ==> utf8_len(slug@.take(i - 1)) < max,
            decreases chars@.len() - i,
        {
            if i == chars.len() {
                assert(slug@.take(i as int) == slug@);
                assert(false);
            }
            proof {
                lemma_utf8_step(slug@, i as int);
                if i + 1 < slug@.len() {
                    lemma_utf8_increasing(slug@, i + 1, slug@.len() as int);
                }
                assert(slug@.take(slug@.len() as int) == slug@);
            }
            let ghost before = acc;
            acc = acc + char_width(chars[i]);
            i = i + 1;
            assert(slug@.take(i - 1) == slug@.take(i - 1));
            assert(utf8_len(slug@.take(i - 1)) == before);
        }
        proof {
            let k = cut_point(slug@, max as nat);
            assert(0 <= k <= slug@.len() && utf8_len(slug@.take(k)) == max);
            if k < i {
                if k < i - 1 {
                    lemma_utf8_increasing(slug@, k, i - 1);
                }
                assert(false);
            }
            if k > i {
                lemma_utf8_increasing(slug@, i as int, k);
                assert(false);
            }
            assert(k == i);
        }
        end = i;
    } else {
        assert(slug@.take(chars@.len() as int) == slug@);
    }
    let ghost src = chars@.take(end as int);
    let mut b = end;
    while b > 0 && chars[b - 1] == '_'
        invariant
            b <= end <= chars@.len(),
            src == chars@.take(end as int),
            forall|k: int| b <= k < end ==> #[trigger] chars@[k] == '_',
        decreases b,
    {
        b = b - 1;
    }
    proof {
        let n = (end - b) as int;
        assert forall|k: int| src.len() - n <= k < src.len() implies (|c: char| c == '_')(
            #[trigger] src[k],
        ) by {}
        lemma_trailing_count_unique(src, |c: char| c == '_', n);
        assert(src.take(src.len() - n) == chars@.subrange(0, b as int));
    }
    string_of_range(&chars, 0, b)
}

/// The date/time components a file-name template can interpolate, each already
/// zero-padded to its conventional width.
pub struct DateParts {
    /// Four-digit year.
    pub year: String,
    /// Two-digit month.
    pub month: String,
    /// Two-digit day.
    pub day: String,
    /// Two-digit hour (24h).
    pub hour: String,
    /// Two-digit minute.
    pub minute: String,
    /// Two-digit second.
    pub second: String,
}

/// The file name a template renders to: each token replaced in turn, then `.sql`.
pub open spec fn file_name_text(
    template: Seq<char>,
    revision: Seq<char>,
    slug: Seq<char>,
    date: DateParts,
) -> Seq<char> {
    file_name_body(template, revision, slug, date) + ".sql"@
}

/// A template with each token replaced in turn: `{rev}`, `{slug}`, `{year}`,
/// `{month}`, `{day}`, `{hour}`, `{minute}`, `{second}`.
pub open spec fn file_name_body(
    template: Seq<char>,
    revision: Seq<char>,
    slug: Seq<char>,
    date: DateParts,
) -> Seq<char> {
    let a = replace_all(template, "{rev}"@, revision);
    let b = replace_all(a, "{slug}"@, slug);
    let c = replace_all(b, "{year}"@, date.year@);
    let d = replace_all(c, "{month}"@, date.month@);
    let e = replace_all(d, "{day}"@, date.day@);
    let f = replace_all(e, "{hour}"@, date.hour@);
    let g = replace_all(f, "{minute}"@, date.minute@);
    replace_all(g, "{second}"@, date.second@)
}

/// Whether `s` holds no `{`.
pub open spec fn brace_free(s: Seq<char>) -> bool {
    forall|i: int| 0 <= i < s.len() ==> s[i] != '{'
}

/// Whether no part that a file-name template interpolates holds a `{`.
pub open spec fn parts_brace_free(revision: Seq<char>, slug: Seq<char>, date: DateParts) -> bool {
    &&& brace_free(revision)
    &&& brace_free(slug)
    &&& brace_free(date.year@)
    &&& brace_free(date.month@)
    &&& brace_free(date.day@)
    &&& brace_free(date.hour@)
    &&& brace_free(date.minute@)
    &&& brace_free(date.second@)
}

/// Whether `t` has the shape of a template token: `{`, a name without braces,
/// then `}`.
pub open spec fn is_token(t: Seq<char>) -> bool {
    &&& t.len() >= 2
    &&& t[0] == '{'
    &&& t[t.len() - 1] == '}'
    &&& forall|i: int| 0 < i < t.len() - 1 ==> t[i] != '{' && t[i] != '}'
}

/// Replacing a token in a text that is a token or holds no `{` gives the
/// replacement when the text is that token, and leaves the text otherwise.
proof fn lemma_replace_token(s: Seq<char>, t: Seq<char>, to: Seq<char>)
    requires
        is_token(t),
        is_token(s) || brace_free(s),
    ensures
        replace_all(s, t, to) == (if s == t {
            to
        } else {
            s
        }),
        brace_free(s) ==> replace_all(s, t, to) == s,
{
    if brace_free(s) && s.len() > 0 {
        assert(s[0] != t[0]);
    }
    if s == t {
        lemma_replace_all_whole(t, to);
    } else {
        assert forall|i: int| !occurs_at(s, t, i) by {
            if occurs_at(s, t, i) {
                let w = s.subrange(i, i + t.len());
                assert(s[i] == w[0]);
                assert(s[i + t.len() - 1] == w[t.len() - 1]);
                if is_token(s) {
                    assert(i == 0);
                    assert(t.len() == s.len());
                    assert(w =~= s);
                }
            }
        }
        lemma_replace_all_absent(s, t, to);
    }
}

/// A template that is exactly one token renders to that token's part followed
/// by `.sql`: `{rev}` to the revision, `{slug}` to the slug, and each date token
/// to its own date part, when no part itself holds a `{`.
pub proof fn lemma_file_name_of_token(
    template: Seq<char>,
    revision: Seq<char>,
    slug: Seq<char>,
    date: DateParts,
)
    requires
        parts_brace_free(revision, slug, date),
    ensures
        template == "{rev}"@ ==> file_name_text(template, revision, slug, date) == revision
            + ".sql"@,
        template == "{slug}"@ ==> file_name_text(template, revision, slug, date) == slug + ".sql"@,
        template == "{year}"@ ==> file_name_text(template, revision, slug, date) == date.year@
            + ".sql"@,
        template == "{month}"@ ==> file_name_text(template, revision, slug, date) == date.month@
            + ".sql"@,
        template == "{day}"@ ==> file_name_text(template, revision, slug, date) == date.day@
            + ".sql"@,
        template == "{hour}"@ ==> file_name_text(template, revision, slug, date) == date.hour@
            + ".sql"@,
        template == "{minute}"@ ==> file_name_text(template, revision, slug, date) == date.minute@
            + ".sql"@,
        template == "{second}"@ ==> file_name_text(template, revision, slug, date) == date.second@
            + ".sql"@,
{
    reveal_strlit("{rev}");
    reveal_strlit("{slug}");
    reveal_strlit("{year}");
    reveal_strlit("{month}");
    reveal_strlit("{day}");
    reveal_strlit("{hour}");
    reveal_strlit("{minute}");
    reveal_strlit("{second}");
    assert(is_token("{rev}"@));
    assert(is_token("{slug}"@));
    assert(is_token("{year}"@));
    assert(is_token("{month}"@));
    assert(is_token("{day}"@));
    assert(is_token("{hour}"@));
    assert(is_token("{minute}"@));
    assert(is_token("{second}"@));
    assert("{rev}"@[1] != "{day}"@[1]);
    assert("{slug}"@[1] != "{year}"@[1]);
    assert("{slug}"@[1] != "{hour}"@[1]);
    assert("{year}"@[1] != "{hour}"@[1]);
    assert("{minute}"@[1] != "{second}"@[1]);
    if is_token(template) {
        let a = replace_all(template, "{rev}"@, revision);
        lemma_replace_token(template, "{rev}"@, revision);
        let b = replace_all(a, "{slug}"@, slug);
        lemma_replace_token(a, "{slug}"@, slug);
        let c = replace_all(b, "{year}"@, date.year@);
        lemma_replace_token(b, "{year}"@, date.year@);
        let d = replace_all(c, "{month}"@, date.month@);
        lemma_replace_token(c, "{month}"@, date.month@);
        let e = replace_all(d, "{day}"@, date.day@);
        lemma_replace_token(d, "{day}"@, date.day@);
        let f = replace_all(e, "{hour}"@, date.hour@);
        lemma_replace_token(e, "{hour}"@, date.hour@);
        let g = replace_all(f, "{minute}"@, date.minute@);
        lemma_replace_token(f, "{minute}"@, date.minute@);
        lemma_replace_token(g, "{second}"@, date.second@);
    }
}

/// Replacing a token in `x + y`, where `x` is a token or holds no `{`,
/// replaces it in `x` and in `y` apart: no occurrence spans the two.
proof fn lemma_replace_all_concat(x: Seq<char>, y: Seq<char>, t: Seq<char>, to: Seq<char>)
    requires
        is_token(t),
        is_token(x) || brace_free(x),
    ensures
        replace_all(x + y, t, to) == replace_all(x, t, to) + replace_all(y, t, to),
    decreases x.len(),
{
    let xy = x + y;
    let n = t.len() as int;
    lemma_replace_token(x, t, to);
    if x.len() == 0 {
        assert(xy =~= y);
        assert(x + replace_all(y, t, to) =~= replace_all(y, t, to));
    } else if x == t {
        assert(xy.subrange(0, n) =~= t);
        assert(xy.subrange(n, xy.len() as int) =~= y);
    } else if xy.len() < n {
        assert(replace_all(y, t, to) == y);
    } else {
        let m = x.len() as int;
        if xy.subrange(0, n) == t {
            assert(xy[0] == xy.subrange(0, n)[0]);
            assert(x[0] == xy[0]);
            assert(is_token(x));
            assert(xy[n - 1] == xy.subrange(0, n)[n - 1]);
            if n - 1 < m {
                assert(x[n - 1] == xy[n - 1]);
                assert(n == m);
                assert(xy.subrange(0, n) =~= x);
            } else {
                assert(xy.subrange(0, n)[m - 1] == xy[m - 1]);
                assert(x[m - 1] == xy[m - 1]);
            }
        }
        let x1 = x.drop_first();
        assert forall|i: int| 0 <= i < x1.len() implies x1[i] != '{' by {
            assert(x1[i] == x[i + 1]);
        }
        lemma_replace_all_concat(x1, y, t, to);
        lemma_replace_token(x1, t, to);
        assert(xy.drop_first() =~= x1 + y);
        assert(x =~= seq![x[0]] + x1);
        assert(seq![xy[0]] + (x1 + replace_all(y, t, to)) =~= x + replace_all(y, t, to));
    }
}

/// Every template token is a token.
proof fn lemma_template_tokens()
    ensures
        is_token("{rev}"@),
        is_token("{slug}"@),
        is_token("{year}"@),
        is_token("{month}"@),
        is_token("{day}"@),
        is_token("{hour}"@),
        is_token("{minute}"@),
        is_token("{second}"@),
{
    reveal_strlit("{rev}");
    reveal_strlit("{slug}");
    reveal_strlit("{year}");
    reveal_strlit("{month}");
    reveal_strlit("{day}");
    reveal_strlit("{hour}");
    reveal_strlit("{minute}");
    reveal_strlit("{second}");
}

/// Rendering `x + y`, where `x` is a token or holds no `{`, renders `x` and
/// `y` apart.
proof fn lemma_file_name_body_concat(
    x: Seq<char>,
    y: Seq<char>,
    revision: Seq<char>,
    slug: Seq<char>,
    date: DateParts,
)
    requires
        parts_brace_free(revision, slug, date),
        is_token(x) || brace_free(x),
    ensures
        file_name_body(x + y, revision, slug, date) == file_name_body(x, revision, slug, date)
            + file_name_body(y, revision, slug, date),
{
    lemma_template_tokens();
    let ax = replace_all(x, "{rev}"@, revision);
    let ay = replace_all(y, "{rev}"@, revision);
    lemma_replace_all_concat(x, y, "{rev}"@, revision);
    lemma_replace_token(x, "{rev}"@, revision);
    let bx = replace_all(ax, "{slug}"@, slug);
    let by = replace_all(ay, "{slug}"@, slug);
    lemma_replace_all_concat(ax, ay, "{slug}"@, slug);
    lemma_replace_token(ax, "{slug}"@, slug);
    let cx = replace_all(bx, "{year}"@, date.year@);
    let cy = replace_all(by, "{year}"@, date.year@);
    lemma_replace_all_concat(bx, by, "{year}"@, date.year@);
    lemma_replace_token(bx, "{year}"@, date.year@);
    let dx = replace_all(cx, "{month}"@, date.month@);
    let dy = replace_all(cy, "{month}"@, date.month@);
    lemma_replace_all_concat(cx, cy, "{month}"@, date.month@);
    lemma_replace_token(cx, "{month}"@, date.month@);
    let ex = replace_all(dx, "{day}"@, date.day@);
    let ey = replace_all(dy, "{day}"@, date.day@);
    lemma_replace_all_concat(dx, dy, "{day}"@, date.day@);
    lemma_replace_token(dx, "{day}"@, date.day@);
    let fx = replace_all(ex, "{hour}"@, date.hour@);
    let fy = replace_all(ey, "{hour}"@, date.hour@);
    lemma_replace_all_concat(ex, ey, "{hour}"@, date.hour@);
    lemma_replace_token(ex, "{hour}"@, date.hour@);
    let gx = replace_all(fx, "{minute}"@, date.minute@);
    let gy = replace_all(fy, "{minute}"@, date.minute@);
    lemma_replace_all_concat(fx, fy, "{minute}"@, date.minute@);
    lemma_replace_token(fx, "{minute}"@, date.minute@);
    lemma_replace_all_concat(gx, gy, "{second}"@, date.second@);
}

/// What one piece of a template renders to: a known token its part, any other
/// piece (text, or an unknown token) itself.
pub open spec fn piece_value(
    piece: Seq<char>,
    revision: Seq<char>,
    slug: Seq<char>,
    date: DateParts,
) -> Seq<char> {
    if piece == "{rev}"@ {
        revision
    } else if piece == "{slug}"@ {
        slug
    } else if piece == "{year}"@ {
        date.year@
    } else if piece == "{month}"@ {
        date.month@
    } else if piece == "{day}"@ {
        date.day@
    } else if piece == "{hour}"@ {
        date.hour@
    } else if piece == "{minute}"@ {
        date.minute@
    } else if piece == "{second}"@ {
        date.second@
    } else {
        piece
    }
}

/// A single piece renders to its value.
proof fn lemma_file_name_body_piece(
    x: Seq<char>,
    revision: Seq<char>,
    slug: Seq<char>,
    date: DateParts,
)
    requires
        parts_brace_free(revision, slug, date),
        is_token(x) || brace_free(x),
    ensures
        file_name_body(x, revision, slug, date) == piece_value(x, revision, slug, date),
{
    lemma_template_tokens();
    reveal_strlit("{rev}");
    reveal_strlit("{slug}");
    reveal_strlit("{year}");
    reveal_strlit("{month}");
    reveal_strlit("{day}");
    reveal_strlit("{hour}");
    reveal_strlit("{minute}");
    reveal_strlit("{second}");
    assert("{rev}"@[1] != "{day}"@[1]);
    assert("{slug}"@[1] != "{year}"@[1]);
    assert("{slug}"@[1] != "{hour}"@[1]);
    assert("{year}"@[1] != "{hour}"@[1]);
    assert("{minute}"@[1] != "{second}"@[1]);
    if brace_free(x) && x.len() > 0 {
        assert(x[0] != '{');
    }
    let a = replace_all(x, "{rev}"@, revision);
    lemma_replace_token(x, "{rev}"@, revision);
    let b = replace_all(a, "{slug}"@, slug);
    lemma_replace_token(a, "{slug}"@, slug);
    let c = replace_all(b, "{year}"@, date.year@);
    lemma_replace_token(b, "{year}"@, date.year@);
    let d = replace_all(c, "{month}"@, date.month@);
    lemma_replace_token(c, "{month}"@, date.month@);
    let e = replace_all(d, "{day}"@, date.day@);
    lemma_replace_token(d, "{day}"@, date.day@);
    let f = replace_all(e, "{hour}"@, date.hour@);
    lemma_replace_token(e, "{hour}"@, date.hour@);
    let g = replace_all(f, "{minute}"@, date.minute@);
    lemma_replace_token(f, "{minute}"@, date.minute@);
    lemma_replace_token(g, "{second}"@, date.second@);
}

/// The pieces of a template, joined.
pub open spec fn concat_pieces(ps: Seq<Seq<char>>) -> Seq<char>
    decreases ps.len(),
{
    if ps.len() == 0 {
        seq![]
    } else {
        ps[0] + concat_pieces(ps.drop_first())
    }
}

proof fn lemma_file_name_body_pieces(
    ps: Seq<Seq<char>>,
    revision: Seq<char>,
    slug: Seq<char>,
    date: DateParts,
)
    requires
        parts_brace_free(revision, slug, date),
        forall|i: int| 0 <= i < ps.len() ==> is_token(#[trigger] ps[i]) || brace_free(ps[i]),
    ensures
        file_name_body(concat_pieces(ps), revision, slug, date) == concat_pieces(
            ps.map_values(|p: Seq<char>| piece_value(p, revision, slug, date)),
        ),
    decreases ps.len(),
{
    let vs = ps.map_values(|p: Seq<char>| piece_value(p, revision, slug, date));
    if ps.len() == 0 {
        lemma_template_tokens();
        assert(concat_pieces(ps) == Seq::<char>::empty());
        assert(concat_pieces(vs) == Seq::<char>::empty());
    } else {
        let rest = ps.drop_first();
        assert forall|i: int| 0 <= i < rest.len() implies is_token(#[trigger] rest[i]) || brace_free(
            rest[i],
        ) by {
            assert(rest[i] == ps[i + 1]);
        }
        lemma_file_name_body_pieces(rest, revision, slug, date);
        lemma_file_name_body_concat(ps[0], concat_pieces(rest), revision, slug, date);
        lemma_file_name_body_piece(ps[0], revision, slug, date);
        assert(vs.drop_first() =~= rest.map_values(
            |p: Seq<char>| piece_value(p, revision, slug, date),
        ));
    }
}

/// A template made of pieces, each a token or text without `{`, renders piece
/// by piece: `{rev}` to the revision, `{slug}` to the slug, each date token to
/// its own date part, and any other piece (text, or an unknown token) to
/// itself; then `.sql` follows. This holds when no part itself holds a `{`.
pub proof fn lemma_file_name_of_pieces(
    ps: Seq<Seq<char>>,
    revision: Seq<char>,
    slug: Seq<char>,
    date: DateParts,
)
    requires
        parts_brace_free(revision, slug, date),
        forall|i: int| 0 <= i < ps.len() ==> is_token(#[trigger] ps[i]) || brace_free(ps[i]),
    ensures
        file_name_text(concat_pieces(ps), revision, slug, date) == concat_pieces(
            ps.map_values(|p: Seq<char>| piece_value(p, revision, slug, date)),
        ) + ".sql"@,
{
    lemma_file_name_body_pieces(ps, revision, slug, date);
}

/// Renders a migration file name from a template and its parts, appending `.sql`.
///
/// Supported tokens: `{rev}`, `{slug}`, `{year}`, `{month}`, `{day}`, `{hour}`,
/// `{minute}`, `{second}`. Unknown tokens are left untouched.
pub fn render_file_name(template: &str, revision: &str, slug: &str, date: &DateParts) -> (r:
    String)
    ensures
        r@ == file_name_text(template@, revision@, slug@, *date),
        parts_brace_free(revision@, slug@, *date) ==> {
            &&& template@ == "{rev}"@ ==> r@ == revision@ + ".sql"@
            &&& template@ == "{slug}"@ ==> r@ == slug@ + ".sql"@
            &&& template@ == "{year}"@ ==> r@ == date.year@ + ".sql"@
            &&& template@ == "{month}"@ ==> r@ == date.month@ + ".sql"@
            &&& template@ == "{day}"@ ==> r@ == date.day@ + ".sql"@
            &&& template@ == "{hour}"@ ==> r@ == date.hour@ + ".sql"@
            &&& template@ == "{minute}"@ ==> r@ == date.minute@ + ".sql"@
            &&& template@ == "{second}"@ ==> r@ == date.second@ + ".sql"@
        },
{
    proof {
        if parts_brace_free(revision@, slug@, *date) {
            lemma_file_name_of_token(template@, revision@, slug@, *date);
        }
        reveal_strlit("{rev}");
        reveal_strlit("{slug}");
        reveal_strlit("{year}");
        reveal_strlit("{month}");
        reveal_strlit("{day}");
        reveal_strlit("{hour}");
        reveal_strlit("{minute}");
        reveal_strlit("{second}");
    }
    let a = replace(template, "{rev}", revision);
    let b = replace(a.as_str(), "{slug}", slug);
    let c = replace(b.as_str(), "{year}", date.year.as_str());
    let d = replace(c.as_str(), "{month}", date.month.as_str());
    let e = replace(d.as_str(), "{day}", date.day.as_str());
    let f = replace(e.as_str(), "{hour}", date.hour.as_str());
    let g = replace(f.as_str(), "{minute}", date.minute.as_str());
    let mut name = replace(g.as_str(), "{second}", date.second.as_str());
    push_str(&mut name, ".sql");
    name
}

/// The contents of a new migration file.
pub open spec fn template_text(
    revision: Seq<char>,
    down_revision: Option<Seq<char>>,
    snake: Seq<char>,
) -> Seq<char> {
    "-- revision: "@ + revision + "\n-- down_revision: "@ + (match down_revision {
        Some(d) => d,
        None => seq![],
    }) + "\n-- name: "@ + snake + "\n\n-- migrate:up\n"@
        + "-- Write the schema changes here, for example:\n"@
        + "-- CREATE TABLE \"example\" (\"id\" INTEGER PRIMARY KEY AUTOINCREMENT);\n"@
        + "\n-- migrate:down\n"@ + "-- Undo the changes, for example:\n"@
        + "-- DROP TABLE \"example\";\n"@
}

/// Builds the contents of a new migration file.
pub fn template(revision: &str, down_revision: Option<&str>, snake: &str) -> (r: String)
    ensures
        r@ == template_text(
            revision@,
            match down_revision {
                Some(d) => Some(d@),
                None => None,
            },
            snake@,
        ),
{
    let mut s = owned("-- revision: ");
    push_str(&mut s, revision);
    push_str(&mut s, "\n-- down_revision: ");
    match down_revision {
        Some(d) => push_str(&mut s, d),
        None => {},
    }
    push_str(&mut s, "\n-- name: ");
    push_str(&mut s, snake);
    push_str(&mut s, "\n\n-- migrate:up\n");
    push_str(&mut s, "-- Write the schema changes here, for example:\n");
    push_str(&mut s, "-- CREATE TABLE \"example\" (\"id\" INTEGER PRIMARY KEY AUTOINCREMENT);\n");
    push_str(&mut s, "\n-- migrate:down\n");
    push_str(&mut s, "-- Undo the changes, for example:\n");
    push_str(&mut s, "-- DROP TABLE \"example\";\n");
    s
}

} // verus!
