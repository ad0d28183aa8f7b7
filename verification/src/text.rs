//! Character, string and byte helpers shared by the validators and encoders.
//!
//! Text is reasoned about as its sequence of `char`s (`s@`); byte lengths and
//! byte encodings are the UTF-8 encoding of that sequence (`encode_utf8`).

use vstd::prelude::*;
use vstd::utf8::encode_utf8;

verus! {

// ---------------------------------------------------------------------------
// Character classes
// ---------------------------------------------------------------------------

pub open spec fn is_ascii_digit(c: char) -> bool {
    '0' <= c && c <= '9'
}

pub open spec fn is_ascii_upper(c: char) -> bool {
    'A' <= c && c <= 'Z'
}

pub open spec fn is_ascii_lower(c: char) -> bool {
    'a' <= c && c <= 'z'
}

pub open spec fn is_ascii_alnum(c: char) -> bool {
    is_ascii_digit(c) || is_ascii_upper(c) || is_ascii_lower(c)
}

pub open spec fn is_ascii_hexdigit(c: char) -> bool {
    is_ascii_digit(c) || ('a' <= c && c <= 'f') || ('A' <= c && c <= 'F')
}

/// Identifier characters accepted by the canonical text validators: ASCII
/// alphanumerics plus `_`, `-` and `.`.
pub open spec fn is_ident_char(c: char) -> bool {
    is_ascii_alnum(c) || c == '_' || c == '-' || c == '.'
}

/// Label characters: ASCII alphanumerics plus `_` and `-`.
pub open spec fn is_label_char(c: char) -> bool {
    is_ascii_alnum(c) || c == '_' || c == '-'
}

/// The Unicode `White_Space` property, as tested by `char::is_whitespace`.
pub open spec fn is_ws(c: char) -> bool {
    let u = c as u32;
    (9 <= u && u <= 13) || u == 32 || u == 0x85 || u == 0xA0 || u == 0x1680 || (0x2000 <= u
        && u <= 0x200A) || u == 0x2028 || u == 0x2029 || u == 0x202F || u == 0x205F || u == 0x3000
}

/// ASCII whitespace as tested by `u8::is_ascii_whitespace` / `char::is_ascii_whitespace`.
pub open spec fn is_ascii_ws(c: char) -> bool {
    c == ' ' || c == '\t' || c == '\n' || c == '\r' || (c as u32) == 12
}

pub open spec fn to_upper(c: char) -> char {
    if is_ascii_lower(c) {
        ((c as u32) - 32) as char
    } else {
        c
    }
}

pub open spec fn to_lower(c: char) -> char {
    if is_ascii_upper(c) {
        ((c as u32) + 32) as char
    } else {
        c
    }
}

pub open spec fn upper_seq(s: Seq<char>) -> Seq<char> {
    s.map_values(|c: char| to_upper(c))
}

pub open spec fn all_chars(s: Seq<char>, p: spec_fn(char) -> bool) -> bool {
    forall|i: int| 0 <= i < s.len() ==> p(#[trigger] s[i])
}

pub open spec fn all_ascii(s: Seq<char>) -> bool {
    forall|i: int| 0 <= i < s.len() ==> (#[trigger] s[i] as u32) < 128
}

/// Uppercasing leaves text without lowercase ASCII letters unchanged.
pub proof fn lemma_upper_fixed(s: Seq<char>)
    requires
        forall|i: int| 0 <= i < s.len() ==> !is_ascii_lower(#[trigger] s[i]),
    ensures
        upper_seq(s) == s,
{
    assert(upper_seq(s) =~= s);
}

pub fn is_digit_char(c: char) -> (r: bool)
    ensures
        r == is_ascii_digit(c),
{
    '0' <= c && c <= '9'
}

pub fn is_alnum_char(c: char) -> (r: bool)
    ensures
        r == is_ascii_alnum(c),
{
    ('0' <= c && c <= '9') || ('A' <= c && c <= 'Z') || ('a' <= c && c <= 'z')
}

pub fn is_hex_char(c: char) -> (r: bool)
    ensures
        r == is_ascii_hexdigit(c),
{
    ('0' <= c && c <= '9') || ('a' <= c && c <= 'f') || ('A' <= c && c <= 'F')
}

pub fn is_ident(c: char) -> (r: bool)
    ensures
        r == is_ident_char(c),
{
    is_alnum_char(c) || c == '_' || c == '-' || c == '.'
}

pub fn is_label(c: char) -> (r: bool)
    ensures
        r == is_label_char(c),
{
    is_alnum_char(c) || c == '_' || c == '-'
}

pub fn is_ws_char(c: char) -> (r: bool)
    ensures
        r == is_ws(c),
{
    let u = c as u32;
    (9 <= u && u <= 13) || u == 32 || u == 0x85 || u == 0xA0 || u == 0x1680 || (0x2000 <= u
        && u <= 0x200A) || u == 0x2028 || u == 0x2029 || u == 0x202F || u == 0x205F || u == 0x3000
}

pub fn is_ascii_ws_char(c: char) -> (r: bool)
    ensures
        r == is_ascii_ws(c),
{
    c == ' ' || c == '\t' || c == '\n' || c == '\r' || (c as u32) == 12
}

pub fn upper_char(c: char) -> (r: char)
    ensures
        r == to_upper(c),
{
    if 'a' <= c && c <= 'z' {
        let u: u8 = (c as u32 - 32) as u8;
        assert(u as u32 == (c as u32) - 32);
        u as char
    } else {
        c
    }
}

pub fn lower_char(c: char) -> (r: char)
    ensures
        r == to_lower(c),
{
    if 'A' <= c && c <= 'Z' {
        let u: u8 = (c as u32 + 32) as u8;
        assert(u as u32 == (c as u32) + 32);
        u as char
    } else {
        c
    }
}

// ---------------------------------------------------------------------------
// Strings as character vectors
// ---------------------------------------------------------------------------

/// The characters of a string slice, in order.
pub fn chars_of(s: &str) -> (out: Vec<char>)
    ensures
        out@ == s@,
{
    let mut out: Vec<char> = Vec::new();
    for c in it: s.chars()
        invariant
            out@ == it.seq().take(it.index() as int),
            it.seq() == s@,
    {
        out.push(c);
    }
    out
}

/// Builds an owned string from a character slice (`Iterator::collect` into `String`).
#[verifier::external_body]
pub fn string_from_chars(v: &[char]) -> (out: String)
    ensures
        out@ == v@,
{
    v.iter().collect()
}

/// An owned copy of a string slice.
pub fn str_to_string(s: &str) -> (out: String)
    ensures
        out@ == s@,
{
    s.to_owned()
}

/// Appends the characters of `s` to `out`.
pub fn push_str(out: &mut Vec<char>, s: &str)
    ensures
        final(out)@ == old(out)@ + s@,
{
    let cs = chars_of(s);
    push_chars(out, &cs);
}

/// Appends the characters of `src` to `out`.
pub fn push_chars(out: &mut Vec<char>, src: &[char])
    ensures
        final(out)@ == old(out)@ + src@,
{
    let ghost start = out@;
    let n = src.len();
    let mut i: usize = 0;
    while i < n
        invariant
            n == src@.len(),
            i <= n,
            out@ == start + src@.take(i as int),
        decreases n - i,
    {
        out.push(src[i]);
        i += 1;
        assert(src@.take(i as int) =~= src@.take(i - 1 as int).push(src@[i - 1]));
    }
    assert(src@.take(n as int) =~= src@);
}

/// Character-wise equality of two slices.
pub fn chars_eq(a: &[char], b: &[char]) -> (r: bool)
    ensures
        r == (a@ == b@),
{
    if a.len() != b.len() {
        return false;
    }
    let n = a.len();
    let mut i: usize = 0;
    while i < n
        invariant
            n == a@.len(),
            n == b@.len(),
            i <= n,
            forall|j: int| 0 <= j < i ==> a@[j] == b@[j],
        decreases n - i,
    {
        if a[i] != b[i] {
            return false;
        }
        i += 1;
    }
    assert(a@ =~= b@);
    true
}

/// Equality of two string slices.
pub fn str_eq(a: &str, b: &str) -> (r: bool)
    ensures
        r == (a@ == b@),
{
    let x = chars_of(a);
    let y = chars_of(b);
    chars_eq(&x, &y)
}

/// Whether `s` begins with `prefix`.
pub open spec fn starts_with(s: Seq<char>, prefix: Seq<char>) -> bool {
    prefix.len() <= s.len() && s.take(prefix.len() as int) == prefix
}

pub open spec fn ends_with(s: Seq<char>, suffix: Seq<char>) -> bool {
    suffix.len() <= s.len() && s.skip(s.len() - suffix.len()) == suffix
}

pub fn chars_start_with(s: &[char], prefix: &[char]) -> (r: bool)
    ensures
        r == starts_with(s@, prefix@),
{
    if prefix.len() > s.len() {
        return false;
    }
    let n = prefix.len();
    let mut i: usize = 0;
    while i < n
        invariant
            n == prefix@.len(),
            n <= s@.len(),
            i <= n,
            forall|j: int| 0 <= j < i ==> s@[j] == prefix@[j],
        decreases n - i,
    {
        if s[i] != prefix[i] {
            assert(s@.take(n as int)[i as int] != prefix@[i as int]);
            return false;
        }
        i += 1;
    }
    assert(s@.take(n as int) =~= prefix@);
    true
}

pub fn chars_end_with(s: &[char], suffix: &[char]) -> (r: bool)
    ensures
        r == ends_with(s@, suffix@),
{
    if suffix.len() > s.len() {
        return false;
    }
    let n = suffix.len();
    let total = s.len();
    let off = total - n;
    let mut i: usize = 0;
    while i < n
        invariant
            n == suffix@.len(),
            total == s@.len(),
            off + n == total,
            i <= n,
            forall|j: int| 0 <= j < i ==> s@[off + j] == suffix@[j],
        decreases n - i,
    {
        if s[off + i] != suffix[i] {
            assert(s@.skip(off as int)[i as int] != suffix@[i as int]);
            return false;
        }
        i += 1;
    }
    assert(s@.skip(off as int) =~= suffix@);
    true
}

/// Whether every character of `s` satisfies `is_ident_char`.
pub fn all_ident(s: &[char]) -> (r: bool)
    ensures
        r == all_chars(s@, |c: char| is_ident_char(c)),
{
    let n = s.len();
    let mut i: usize = 0;
    while i < n
        invariant
            n == s@.len(),
            i <= n,
            forall|j: int| 0 <= j < i ==> is_ident_char(#[trigger] s@[j]),
        decreases n - i,
    {
        if !is_ident(s[i]) {
            return false;
        }
        i += 1;
    }
    true
}

pub fn all_label(s: &[char]) -> (r: bool)
    ensures
        r == all_chars(s@, |c: char| is_label_char(c)),
{
    let n = s.len();
    let mut i: usize = 0;
    while i < n
        invariant
            n == s@.len(),
            i <= n,
            forall|j: int| 0 <= j < i ==> is_label_char(#[trigger] s@[j]),
        decreases n - i,
    {
        if !is_label(s[i]) {
            return false;
        }
        i += 1;
    }
    true
}

pub fn all_alnum(s: &[char]) -> (r: bool)
    ensures
        r == all_chars(s@, |c: char| is_ascii_alnum(c)),
{
    let n = s.len();
    let mut i: usize = 0;
    while i < n
        invariant
            n == s@.len(),
            i <= n,
            forall|j: int| 0 <= j < i ==> is_ascii_alnum(#[trigger] s@[j]),
        decreases n - i,
    {
        if !is_alnum_char(s[i]) {
            return false;
        }
        i += 1;
    }
    true
}

pub fn all_hex(s: &[char]) -> (r: bool)
    ensures
        r == all_chars(s@, |c: char| is_ascii_hexdigit(c)),
{
    let n = s.len();
    let mut i: usize = 0;
    while i < n
        invariant
            n == s@.len(),
            i <= n,
            forall|j: int| 0 <= j < i ==> is_ascii_hexdigit(#[trigger] s@[j]),
        decreases n - i,
    {
        if !is_hex_char(s[i]) {
            return false;
        }
        i += 1;
    }
    true
}

pub fn all_digits(s: &[char]) -> (r: bool)
    ensures
        r == all_chars(s@, |c: char| is_ascii_digit(c)),
{
    let n = s.len();
    let mut i: usize = 0;
    while i < n
        invariant
            n == s@.len(),
            i <= n,
            forall|j: int| 0 <= j < i ==> is_ascii_digit(#[trigger] s@[j]),
        decreases n - i,
    {
        if !is_digit_char(s[i]) {
            return false;
        }
        i += 1;
    }
    true
}

pub fn is_all_ascii(s: &[char]) -> (r: bool)
    ensures
        r == all_ascii(s@),
{
    let n = s.len();
    let mut i: usize = 0;
    while i < n
        invariant
            n == s@.len(),
            i <= n,
            forall|j: int| 0 <= j < i ==> (#[trigger] s@[j] as u32) < 128,
        decreases n - i,
    {
        if (s[i] as u32) >= 128 {
            return false;
        }
        i += 1;
    }
    true
}

/// Uppercases every ASCII letter.
pub fn upper_chars(s: &[char]) -> (out: Vec<char>)
    ensures
        out@ == upper_seq(s@),
{
    let mut out: Vec<char> = Vec::new();
    let n = s.len();
    let mut i: usize = 0;
    while i < n
        invariant
            n == s@.len(),
            i <= n,
            out@ == upper_seq(s@.take(i as int)),
        decreases n - i,
    {
        let c = upper_char(s[i]);
        out.push(c);
        i += 1;
        assert(upper_seq(s@.take(i as int)) =~= upper_seq(s@.take(i - 1 as int)).push(c));
    }
    assert(s@.take(n as int) =~= s@);
    out
}

// ---------------------------------------------------------------------------
// Trimming (`str::trim`)
// ---------------------------------------------------------------------------

/// `str::trim`: the text with leading and trailing Unicode whitespace removed.
pub open spec fn trim(s: Seq<char>) -> Seq<char>
    decreases s.len(),
{
    if s.len() == 0 {
        s
    } else if is_ws(s[0]) {
        trim(s.drop_first())
    } else if is_ws(s.last()) {
        trim(s.drop_last())
    } else {
        s
    }
}

pub open spec fn all_ws(s: Seq<char>) -> bool {
    forall|i: int| 0 <= i < s.len() ==> is_ws(#[trigger] s[i])
}

/// A trimmed text is empty exactly when every character is whitespace.
pub proof fn lemma_trim_empty(s: Seq<char>)
    ensures
        (trim(s).len() == 0) == all_ws(s),
    decreases s.len(),
{
    if s.len() == 0 {
    } else if is_ws(s[0]) {
        lemma_trim_empty(s.drop_first());
        if all_ws(s.drop_first()) {
            assert forall|i: int| 0 <= i < s.len() implies is_ws(#[trigger] s[i]) by {
                if i > 0 {
                    assert(s.drop_first()[i - 1] == s[i]);
                }
            }
        } else {
            let j = choose|j: int| 0 <= j < s.drop_first().len() && !is_ws(s.drop_first()[j]);
            assert(s[j + 1] == s.drop_first()[j]);
        }
    } else if is_ws(s.last()) {
        lemma_trim_empty(s.drop_last());
        assert(!is_ws(s[0]));
        assert(s.drop_last()[0] == s[0]);
    } else {
        assert(!is_ws(s[0]));
    }
}

/// A text equals its trimmed form exactly when it is empty or neither of its
/// ends is whitespace.
pub proof fn lemma_trim_fixed(s: Seq<char>)
    ensures
        (trim(s) == s) == (s.len() == 0 || (!is_ws(s[0]) && !is_ws(s.last()))),
{
    if s.len() > 0 && (is_ws(s[0]) || is_ws(s.last())) {
        lemma_trim_shorter(s);
    }
}

proof fn lemma_trim_shorter(s: Seq<char>)
    requires
        s.len() > 0,
        is_ws(s[0]) || is_ws(s.last()),
    ensures
        trim(s).len() < s.len(),
    decreases s.len(),
{
    lemma_trim_le(s.drop_first());
    lemma_trim_le(s.drop_last());
}

proof fn lemma_trim_le(s: Seq<char>)
    ensures
        trim(s).len() <= s.len(),
    decreases s.len(),
{
    if s.len() > 0 {
        lemma_trim_le(s.drop_first());
        lemma_trim_le(s.drop_last());
    }
}

/// Start and end indices of the trimmed part of `s`.
pub fn trim_bounds(s: &[char]) -> (r: (usize, usize))
    ensures
        r.0 <= r.1 <= s@.len(),
        trim(s@) == s@.subrange(r.0 as int, r.1 as int),
{
    let mut i: usize = 0;
    let mut j: usize = s.len();
    assert(s@.subrange(0, j as int) =~= s@);
    while i < j && is_ws_char(s[i])
        invariant
            i <= j == s@.len(),
            trim(s@) == trim(s@.subrange(i as int, j as int)),
        decreases j - i,
    {
        assert(s@.subrange(i as int, j as int).drop_first() =~= s@.subrange(i + 1, j as int));
        i += 1;
    }
    while i < j && is_ws_char(s[j - 1])
        invariant
            i <= j <= s@.len(),
            trim(s@) == trim(s@.subrange(i as int, j as int)),
            i < j ==> !is_ws(s@[i as int]),
        decreases j - i,
    {
        let ghost sub = s@.subrange(i as int, j as int);
        assert(sub[0] == s@[i as int]);
        assert(sub.last() == s@[j - 1]);
        assert(sub.drop_last() =~= s@.subrange(i as int, j - 1));
        j -= 1;
    }
    proof {
        let sub = s@.subrange(i as int, j as int);
        if i < j {
            assert(sub[0] == s@[i as int]);
            assert(sub.last() == s@[j - 1]);
        }
    }
    (i, j)
}

/// The trimmed characters of `s`.
pub fn trim_chars(s: &[char]) -> (out: Vec<char>)
    ensures
        out@ == trim(s@),
{
    let (a, b) = trim_bounds(s);
    let mut out: Vec<char> = Vec::new();
    let mut k = a;
    while k < b
        invariant
            a <= k <= b <= s@.len(),
            out@ == s@.subrange(a as int, k as int),
        decreases b - k,
    {
        out.push(s[k]);
        k += 1;
        assert(s@.subrange(a as int, k as int) =~= s@.subrange(a as int, k - 1 as int).push(
            s@[k - 1],
        ));
    }
    out
}

/// `value.trim().is_empty()`.
pub fn is_blank(s: &[char]) -> (r: bool)
    ensures
        r == (trim(s@).len() == 0),
        r == all_ws(s@),
{
    proof {
        lemma_trim_empty(s@);
    }
    let (a, b) = trim_bounds(s);
    a == b
}

/// `value != value.trim()`.
pub fn has_outer_ws(s: &[char]) -> (r: bool)
    ensures
        r == (trim(s@) != s@),
{
    proof {
        lemma_trim_fixed(s@);
    }
    if s.len() == 0 {
        false
    } else {
        is_ws_char(s[0]) || is_ws_char(s[s.len() - 1])
    }
}

// ---------------------------------------------------------------------------
// UTF-8 byte length
// ---------------------------------------------------------------------------

/// The UTF-8 byte length of a character sequence (what `str::len` reports).
pub open spec fn byte_len(s: Seq<char>) -> nat {
    encode_utf8(s).len()
}

pub open spec fn utf8_width(c: char) -> nat {
    if (c as u32) < 0x80 {
        1
    } else if (c as u32) < 0x800 {
        2
    } else if (c as u32) < 0x10000 {
        3
    } else {
        4
    }
}

pub proof fn lemma_encode_utf8_append(a: Seq<char>, b: Seq<char>)
    ensures
        encode_utf8(a + b) == encode_utf8(a) + encode_utf8(b),
    decreases a.len(),
{
    if a.len() == 0 {
        assert(a + b =~= b);
        assert(encode_utf8(a) =~= Seq::<u8>::empty());
        assert(encode_utf8(a) + encode_utf8(b) =~= encode_utf8(b));
    } else {
        assert((a + b).drop_first() =~= a.drop_first() + b);
        assert((a + b)[0] == a[0]);
        lemma_encode_utf8_append(a.drop_first(), b);
        assert(encode_utf8(a + b) =~= encode_utf8(a) + encode_utf8(b));
    }
}

pub proof fn lemma_encode_utf8_one(c: char)
    ensures
        encode_utf8(seq![c]).len() == utf8_width(c),
{
    vstd::utf8::char_is_scalar(c);
    assert(seq![c].drop_first() =~= Seq::<char>::empty());
    assert(encode_utf8(seq![c]) =~= vstd::utf8::encode_scalar(c as u32) + encode_utf8(
        Seq::<char>::empty(),
    ));
}

/// For ASCII text the byte length is the character count.
pub proof fn lemma_ascii_byte_len(s: Seq<char>)
    requires
        all_ascii(s),
    ensures
        byte_len(s) == s.len(),
    decreases s.len(),
{
    if s.len() == 0 {
        assert(encode_utf8(s) =~= Seq::<u8>::empty());
    } else {
        let a = s.drop_last();
        assert(all_ascii(a)) by {
            assert forall|i: int| 0 <= i < a.len() implies (#[trigger] a[i] as u32) < 128 by {
                assert(a[i] == s[i]);
            }
        }
        lemma_ascii_byte_len(a);
        lemma_encode_utf8_append(a, seq![s.last()]);
        lemma_encode_utf8_one(s.last());
        assert(s =~= a + seq![s.last()]);
    }
}

/// The UTF-8 byte length of `s`.
pub fn byte_len_of(s: &[char]) -> (n: u128)
    ensures
        n == byte_len(s@),
{
    let len = s.len();
    let mut acc: u128 = 0;
    let mut i: usize = 0;
    while i < len
        invariant
            len == s@.len(),
            i <= len,
            acc == byte_len(s@.take(i as int)),
            acc <= 4 * i,
        decreases len - i,
    {
        let u = s[i] as u32;
        let w: u128 = if u < 0x80 {
            1
        } else if u < 0x800 {
            2
        } else if u < 0x10000 {
            3
        } else {
            4
        };
        proof {
            lemma_encode_utf8_append(s@.take(i as int), seq![s@[i as int]]);
            lemma_encode_utf8_one(s@[i as int]);
            assert(s@.take(i + 1 as int) =~= s@.take(i as int) + seq![s@[i as int]]);
        }
        acc = acc + w;
        i += 1;
    }
    assert(s@.take(len as int) =~= s@);
    acc
}

// ---------------------------------------------------------------------------
// Hexadecimal
// ---------------------------------------------------------------------------

pub open spec fn hex_digit_upper(n: int) -> char {
    if n < 10 {
        ('0' as int + n) as char
    } else {
        ('A' as int + n - 10) as char
    }
}

/// `hex::encode_upper`: two uppercase hexadecimal digits per byte.
pub open spec fn hex_upper(b: Seq<u8>) -> Seq<char>
    decreases b.len(),
{
    if b.len() == 0 {
        seq![]
    } else {
        seq![hex_digit_upper((b[0] / 16) as int), hex_digit_upper((b[0] % 16) as int)] + hex_upper(b.drop_first())
    }
}

pub proof fn lemma_hex_upper_len(b: Seq<u8>)
    ensures
        hex_upper(b).len() == 2 * b.len(),
    decreases b.len(),
{
    if b.len() > 0 {
        lemma_hex_upper_len(b.drop_first());
    }
}

pub proof fn lemma_hex_upper_append(a: Seq<u8>, b: Seq<u8>)
    ensures
        hex_upper(a + b) == hex_upper(a) + hex_upper(b),
    decreases a.len(),
{
    if a.len() == 0 {
        assert(a + b =~= b);
        assert(hex_upper(a) + hex_upper(b) =~= hex_upper(b));
    } else {
        assert((a + b).drop_first() =~= a.drop_first() + b);
        lemma_hex_upper_append(a.drop_first(), b);
        assert(hex_upper(a + b) =~= hex_upper(a) + hex_upper(b));
    }
}

pub proof fn lemma_hex_upper_one(x: u8)
    ensures
        hex_upper(seq![x]) == seq![hex_digit_upper((x / 16) as int), hex_digit_upper((x % 16) as int)],
{
    assert(seq![x].drop_first() =~= Seq::<u8>::empty());
    assert(hex_upper(seq![x]) =~= seq![hex_digit_upper((x / 16) as int), hex_digit_upper((x % 16) as int)]
        + hex_upper(Seq::<u8>::empty()));
}

pub fn hex_digit(n: u8) -> (c: char)
    requires
        n < 16,
    ensures
        c == hex_digit_upper(n as int),
{
    if n < 10 {
        let u: u8 = 48 + n;
        u as char
    } else {
        let u: u8 = 55 + n;
        u as char
    }
}

/// Appends the uppercase hexadecimal encoding of `b` to `out`.
pub fn push_hex_upper(out: &mut Vec<char>, b: &[u8])
    ensures
        final(out)@ == old(out)@ + hex_upper(b@),
{
    let ghost start = out@;
    let n = b.len();
    let mut i: usize = 0;
    while i < n
        invariant
            n == b@.len(),
            i <= n,
            out@ == start + hex_upper(b@.take(i as int)),
        decreases n - i,
    {
        let x = b[i];
        out.push(hex_digit(x / 16));
        out.push(hex_digit(x % 16));
        proof {
            lemma_hex_upper_append(b@.take(i as int), seq![x]);
            lemma_hex_upper_one(x);
            assert(b@.take(i + 1 as int) =~= b@.take(i as int) + seq![x]);
        }
        i += 1;
    }
    assert(b@.take(n as int) =~= b@);
}

/// Every character of an uppercase hexadecimal encoding is a digit or one
/// of `A`..`F`.
pub proof fn lemma_hex_upper_chars(b: Seq<u8>)
    ensures
        forall|i: int|
            0 <= i < hex_upper(b).len() ==> is_ascii_digit(#[trigger] hex_upper(b)[i]) || ('A'
                <= hex_upper(b)[i] && hex_upper(b)[i] <= 'F'),
    decreases b.len(),
{
    if b.len() > 0 {
        lemma_hex_upper_chars(b.drop_first());
        let h = hex_upper(b);
        let rest = hex_upper(b.drop_first());
        assert forall|i: int| 0 <= i < h.len() implies is_ascii_digit(#[trigger] h[i]) || ('A'
            <= h[i] && h[i] <= 'F') by {
            if i >= 2 {
                assert(h[i] == rest[i - 2]);
            }
        }
    }
}

/// `hex::encode_upper`.
pub fn encode_hex_upper(b: &[u8]) -> (s: String)
    ensures
        s@ == hex_upper(b@),
{
    let mut out: Vec<char> = Vec::new();
    push_hex_upper(&mut out, b);
    string_from_chars(&out)
}

/// Uppercase hexadecimal of the first `n` bytes of `b`.
pub fn hex_upper_prefix(b: &[u8], n: usize) -> (s: String)
    requires
        n <= b@.len(),
    ensures
        s@ == hex_upper(b@.take(n as int)),
{
    let head = bytes_range(b, 0, n);
    assert(head@ =~= b@.take(n as int));
    encode_hex_upper(head.as_slice())
}

pub open spec fn hex_value(c: char) -> int {
    if is_ascii_digit(c) {
        c as int - '0' as int
    } else if 'a' <= c && c <= 'f' {
        c as int - 'a' as int + 10
    } else {
        c as int - 'A' as int + 10
    }
}

/// The bytes described by an even-length run of hexadecimal digits.
pub open spec fn hex_bytes(s: Seq<char>) -> Seq<u8>
    decreases s.len(),
{
    if s.len() < 2 {
        seq![]
    } else {
        seq![(hex_value(s[0]) * 16 + hex_value(s[1])) as u8] + hex_bytes(s.skip(2))
    }
}

/// `hex::decode`: `None` unless the text has even length and only hexadecimal digits.
pub open spec fn hex_decode(s: Seq<char>) -> Option<Seq<u8>> {
    if s.len() % 2 == 0 && all_chars(s, |c: char| is_ascii_hexdigit(c)) {
        Some(hex_bytes(s))
    } else {
        None
    }
}

proof fn lemma_hex_digit_value(n: int)
    requires
        0 <= n < 16,
    ensures
        hex_value(hex_digit_upper(n)) == n,
        is_ascii_hexdigit(hex_digit_upper(n)),
        (hex_digit_upper(n) as u32) < 128,
        !is_ws(hex_digit_upper(n)),
{
}

proof fn lemma_hex_bytes_upper(b: Seq<u8>)
    ensures
        hex_bytes(hex_upper(b)) == b,
    decreases b.len(),
{
    if b.len() == 0 {
        assert(hex_bytes(hex_upper(b)) =~= b);
    } else {
        let h = hex_upper(b);
        let x = b[0];
        lemma_hex_upper_len(b.drop_first());
        assert(h.skip(2) =~= hex_upper(b.drop_first()));
        lemma_hex_bytes_upper(b.drop_first());
        lemma_hex_digit_value((x / 16) as int);
        lemma_hex_digit_value((x % 16) as int);
        assert(h[0] == hex_digit_upper((x / 16) as int));
        assert(h[1] == hex_digit_upper((x % 16) as int));
        assert((hex_value(h[0]) * 16 + hex_value(h[1])) as u8 == x);
        assert(hex_bytes(h) =~= b);
    }
}

/// Uppercase hexadecimal text decodes back to its bytes; it is ASCII, has
/// two characters per byte and no surrounding whitespace.
pub proof fn lemma_hex_upper_roundtrip(b: Seq<u8>)
    ensures
        hex_decode(hex_upper(b)) == Some(b),
        all_ascii(hex_upper(b)),
        byte_len(hex_upper(b)) == 2 * b.len(),
        trim(hex_upper(b)) == hex_upper(b),
{
    let h = hex_upper(b);
    lemma_hex_upper_len(b);
    lemma_hex_upper_chars(b);
    lemma_hex_bytes_upper(b);
    assert(all_chars(h, |c: char| is_ascii_hexdigit(c))) by {
        assert forall|i: int| 0 <= i < h.len() implies is_ascii_hexdigit(#[trigger] h[i]) by {
            assert(is_ascii_digit(h[i]) || ('A' <= h[i] && h[i] <= 'F'));
        }
    }
    assert(all_ascii(h)) by {
        assert forall|i: int| 0 <= i < h.len() implies (#[trigger] h[i] as u32) < 128 by {
            assert(is_ascii_digit(h[i]) || ('A' <= h[i] && h[i] <= 'F'));
        }
    }
    lemma_ascii_byte_len(h);
    lemma_trim_fixed(h);
    if h.len() > 0 {
        assert(is_ascii_digit(h[0]) || ('A' <= h[0] && h[0] <= 'F'));
        assert(is_ascii_digit(h.last()) || ('A' <= h.last() && h.last() <= 'F'));
    }
}

fn hex_val(c: char) -> (v: u8)
    requires
        is_ascii_hexdigit(c),
    ensures
        v as int == hex_value(c),
        v < 16,
{
    if '0' <= c && c <= '9' {
        (c as u32 - 48) as u8
    } else if 'a' <= c && c <= 'f' {
        (c as u32 - 87) as u8
    } else {
        (c as u32 - 55) as u8
    }
}

proof fn lemma_hex_bytes_step(s: Seq<char>, k: int)
    requires
        0 <= k,
        2 * k + 2 <= s.len(),
    ensures
        hex_bytes(s.take(2 * k + 2)) == hex_bytes(s.take(2 * k)) + seq![
            (hex_value(s[2 * k]) * 16 + hex_value(s[2 * k + 1])) as u8,
        ],
    decreases k,
{
    if k == 0 {
        assert(s.take(2).skip(2) =~= Seq::<char>::empty());
        assert(hex_bytes(s.take(0)) =~= Seq::<u8>::empty());
        assert(hex_bytes(s.take(2)) =~= seq![
            (hex_value(s[0]) * 16 + hex_value(s[1])) as u8,
        ] + hex_bytes(Seq::<char>::empty()));
    } else {
        let t = s.skip(2);
        lemma_hex_bytes_step(t, k - 1);
        assert(s.take(2 * k + 2).skip(2) =~= t.take(2 * (k - 1) + 2));
        assert(s.take(2 * k).skip(2) =~= t.take(2 * (k - 1)));
        assert(t[2 * (k - 1)] == s[2 * k]);
        assert(t[2 * (k - 1) + 1] == s[2 * k + 1]);
        assert(s.take(2 * k + 2)[0] == s[0]);
        assert(s.take(2 * k + 2)[1] == s[1]);
        assert(s.take(2 * k)[0] == s[0]);
        assert(s.take(2 * k)[1] == s[1]);
        assert(hex_bytes(s.take(2 * k + 2)) =~= hex_bytes(s.take(2 * k)) + seq![
            (hex_value(s[2 * k]) * 16 + hex_value(s[2 * k + 1])) as u8,
        ]);
    }
}

/// `hex::decode` on a character slice.
pub fn decode_hex(s: &[char]) -> (r: Option<Vec<u8>>)
    ensures
        match r {
            Some(v) => hex_decode(s@) == Some(v@),
            None => hex_decode(s@) is None,
        },
{
    if s.len() % 2 != 0 {
        return None;
    }
    if !all_hex(s) {
        return None;
    }
    let mut out: Vec<u8> = Vec::new();
    let total = s.len();
    let n = total / 2;
    let mut k: usize = 0;
    while k < n
        invariant
            n * 2 == total,
            total == s@.len(),
            k <= n,
            all_chars(s@, |c: char| is_ascii_hexdigit(c)),
            out@ == hex_bytes(s@.take(2 * k as int)),
        decreases n - k,
    {
        let hi = hex_val(s[2 * k]);
        let lo = hex_val(s[2 * k + 1]);
        let b: u8 = hi * 16 + lo;
        proof {
            lemma_hex_bytes_step(s@, k as int);
        }
        out.push(b);
        k += 1;
    }
    assert(s@.take(2 * n as int) =~= s@);
    Some(out)
}

// ---------------------------------------------------------------------------
// Decimal
// ---------------------------------------------------------------------------

pub open spec fn digit_char(d: int) -> char {
    ('0' as int + d) as char
}

/// The decimal rendering of `n`, without sign or leading zeros.
pub open spec fn dec_digits(n: nat) -> Seq<char>
    decreases n,
{
    if n < 10 {
        seq![digit_char(n as int)]
    } else {
        dec_digits(n / 10) + seq![digit_char((n % 10) as int)]
    }
}

/// The value of a run of decimal digits.
pub open spec fn dec_value(s: Seq<char>) -> nat
    decreases s.len(),
{
    if s.len() == 0 {
        0
    } else {
        (dec_value(s.drop_last()) * 10 + (s.last() as int - '0' as int)) as nat
    }
}

pub proof fn lemma_dec_digits(n: nat)
    ensures
        dec_digits(n).len() >= 1,
        all_chars(dec_digits(n), |c: char| is_ascii_digit(c)),
        dec_value(dec_digits(n)) == n,
        forall|i: int| 0 <= i < dec_digits(n).len() ==> #[trigger] dec_digits(n)[i] != '/',
    decreases n,
{
    if n < 10 {
        assert(seq![digit_char(n as int)].drop_last() =~= Seq::<char>::empty());
        assert(digit_char(n as int) as int == '0' as int + n);
        let d = seq![digit_char(n as int)];
        assert(dec_value(d.drop_last()) == 0);
        assert(d.last() == digit_char(n as int));
        assert(dec_value(d) == dec_value(d.drop_last()) * 10 + (d.last() as int - '0' as int));
    } else {
        lemma_dec_digits(n / 10);
        let d = dec_digits(n);
        assert(d.drop_last() =~= dec_digits(n / 10));
        assert(d.last() == digit_char((n % 10) as int));
        assert(digit_char((n % 10) as int) as int == '0' as int + n % 10);
        assert(dec_value(d) == dec_value(dec_digits(n / 10)) * 10 + n % 10);
        assert forall|i: int| 0 <= i < d.len() implies is_ascii_digit(#[trigger] d[i]) by {
            if i < d.len() - 1 {
                assert(d[i] == dec_digits(n / 10)[i]);
            }
        }
    }
}

pub fn push_decimal_u64(out: &mut Vec<char>, n: u64)
    ensures
        final(out)@ == old(out)@ + dec_digits(n as nat),
    decreases n,
{
    if n >= 10 {
        push_decimal_u64(out, n / 10);
    }
    let d: u8 = (n % 10) as u8;
    let c: u8 = 48 + d;
    out.push(c as char);
    proof {
        if n >= 10 {
            assert(final(out)@ =~= old(out)@ + dec_digits(n as nat));
        } else {
            assert(dec_digits(n as nat) =~= seq![digit_char(n as int)]);
        }
    }
}

pub fn push_decimal_u128(out: &mut Vec<char>, n: u128)
    ensures
        final(out)@ == old(out)@ + dec_digits(n as nat),
    decreases n,
{
    if n >= 10 {
        push_decimal_u128(out, n / 10);
    }
    let d: u8 = (n % 10) as u8;
    let c: u8 = 48 + d;
    out.push(c as char);
    proof {
        if n >= 10 {
            assert(final(out)@ =~= old(out)@ + dec_digits(n as nat));
        } else {
            assert(dec_digits(n as nat) =~= seq![digit_char(n as int)]);
        }
    }
}

proof fn lemma_dec_value_monotone(s: Seq<char>, i: int)
    requires
        0 <= i <= s.len(),
        all_chars(s, |c: char| is_ascii_digit(c)),
    ensures
        dec_value(s.take(i)) <= dec_value(s),
    decreases s.len() - i,
{
    if i < s.len() {
        lemma_dec_value_monotone(s, i + 1);
        assert(s.take(i + 1).drop_last() =~= s.take(i));
        assert(s.take(i + 1).last() == s[i]);
    } else {
        assert(s.take(i) =~= s);
    }
}

/// Parses a run of ASCII digits as a `u32`; `None` when it is empty, holds
/// another character, or exceeds `u32::MAX`.
pub fn parse_u32_digits(s: &[char]) -> (r: Option<u32>)
    ensures
        match r {
            Some(v) => s@.len() > 0 && all_chars(s@, |c: char| is_ascii_digit(c)) && v
                == dec_value(s@),
            None => s@.len() == 0 || !all_chars(s@, |c: char| is_ascii_digit(c)) || dec_value(s@)
                > u32::MAX,
        },
{
    if s.len() == 0 || !all_digits(s) {
        return None;
    }
    let n = s.len();
    let mut acc: u64 = 0;
    let mut i: usize = 0;
    while i < n
        invariant
            n == s@.len(),
            i <= n,
            all_chars(s@, |c: char| is_ascii_digit(c)),
            acc == dec_value(s@.take(i as int)),
            acc <= u32::MAX,
        decreases n - i,
    {
        let d = (s[i] as u32 - 48) as u64;
        acc = acc * 10 + d;
        assert(s@.take(i + 1 as int).drop_last() =~= s@.take(i as int));
        i += 1;
        if acc > 0xFFFF_FFFF {
            proof {
                lemma_dec_value_monotone(s@, i as int);
            }
            return None;
        }
    }
    assert(s@.take(n as int) =~= s@);
    Some(acc as u32)
}

// ---------------------------------------------------------------------------
// Bytes
// ---------------------------------------------------------------------------

/// Appends `src` to `out`.
pub fn push_bytes(out: &mut Vec<u8>, src: &[u8])
    ensures
        final(out)@ == old(out)@ + src@,
{
    let ghost start = out@;
    let n = src.len();
    let mut i: usize = 0;
    while i < n
        invariant
            n == src@.len(),
            i <= n,
            out@ == start + src@.take(i as int),
        decreases n - i,
    {
        out.push(src[i]);
        i += 1;
        assert(src@.take(i as int) =~= src@.take(i - 1 as int).push(src@[i - 1]));
    }
    assert(src@.take(n as int) =~= src@);
}

/// Appends the UTF-8 bytes of `s` to `out`.
pub fn push_str_bytes(out: &mut Vec<u8>, s: &str)
    ensures
        final(out)@ == old(out)@ + encode_utf8(s@),
{
    push_bytes(out, s.as_bytes());
}

pub open spec fn le_u16(x: u16) -> Seq<u8> {
    seq![x as u8, (x >> 8) as u8]
}

pub open spec fn le_u32(x: u32) -> Seq<u8> {
    seq![x as u8, (x >> 8) as u8, (x >> 16) as u8, (x >> 24) as u8]
}

pub open spec fn be_u32(x: u32) -> Seq<u8> {
    seq![(x >> 24) as u8, (x >> 16) as u8, (x >> 8) as u8, x as u8]
}

pub open spec fn le_u64(x: u64) -> Seq<u8> {
    seq![
        x as u8,
        (x >> 8) as u8,
        (x >> 16) as u8,
        (x >> 24) as u8,
        (x >> 32) as u8,
        (x >> 40) as u8,
        (x >> 48) as u8,
        (x >> 56) as u8,
    ]
}

/// Little-endian encodings of different numbers differ.
pub proof fn lemma_le_u64_injective(x: u64, y: u64)
    ensures
        le_u64(x) == le_u64(y) ==> x == y,
{
    if le_u64(x) == le_u64(y) {
        assert(le_u64(x)[0] == le_u64(y)[0]);
        assert(le_u64(x)[1] == le_u64(y)[1]);
        assert(le_u64(x)[2] == le_u64(y)[2]);
        assert(le_u64(x)[3] == le_u64(y)[3]);
        assert(le_u64(x)[4] == le_u64(y)[4]);
        assert(le_u64(x)[5] == le_u64(y)[5]);
        assert(le_u64(x)[6] == le_u64(y)[6]);
        assert(le_u64(x)[7] == le_u64(y)[7]);
        assert(x == y) by (bit_vector)
            requires
                x as u8 == y as u8,
                (x >> 8) as u8 == (y >> 8) as u8,
                (x >> 16) as u8 == (y >> 16) as u8,
                (x >> 24) as u8 == (y >> 24) as u8,
                (x >> 32) as u8 == (y >> 32) as u8,
                (x >> 40) as u8 == (y >> 40) as u8,
                (x >> 48) as u8 == (y >> 48) as u8,
                (x >> 56) as u8 == (y >> 56) as u8,
        ;
    }
}

/// Little-endian encodings of different 16-bit numbers differ.
pub proof fn lemma_le_u16_injective(x: u16, y: u16)
    ensures
        le_u16(x) == le_u16(y) ==> x == y,
{
    if le_u16(x) == le_u16(y) {
        assert(le_u16(x)[0] == le_u16(y)[0]);
        assert(le_u16(x)[1] == le_u16(y)[1]);
        assert(x == y) by (bit_vector)
            requires
                x as u8 == y as u8,
                (x >> 8) as u8 == (y >> 8) as u8,
        ;
    }
}

/// Little-endian encodings of different 32-bit numbers differ.
pub proof fn lemma_le_u32_injective(x: u32, y: u32)
    ensures
        le_u32(x) == le_u32(y) ==> x == y,
{
    if le_u32(x) == le_u32(y) {
        assert(le_u32(x)[0] == le_u32(y)[0]);
        assert(le_u32(x)[1] == le_u32(y)[1]);
        assert(le_u32(x)[2] == le_u32(y)[2]);
        assert(le_u32(x)[3] == le_u32(y)[3]);
        assert(x == y) by (bit_vector)
            requires
                x as u8 == y as u8,
                (x >> 8) as u8 == (y >> 8) as u8,
                (x >> 16) as u8 == (y >> 16) as u8,
                (x >> 24) as u8 == (y >> 24) as u8,
        ;
    }
}

pub open spec fn be_u64(x: u64) -> Seq<u8> {
    seq![
        (x >> 56) as u8,
        (x >> 48) as u8,
        (x >> 40) as u8,
        (x >> 32) as u8,
        (x >> 24) as u8,
        (x >> 16) as u8,
        (x >> 8) as u8,
        x as u8,
    ]
}

pub fn push_le_u16(out: &mut Vec<u8>, x: u16)
    ensures
        final(out)@ == old(out)@ + le_u16(x),
{
    out.push(x as u8);
    out.push((x >> 8) as u8);
    assert(final(out)@ =~= old(out)@ + le_u16(x));
}

pub fn push_le_u32(out: &mut Vec<u8>, x: u32)
    ensures
        final(out)@ == old(out)@ + le_u32(x),
{
    out.push(x as u8);
    out.push((x >> 8) as u8);
    out.push((x >> 16) as u8);
    out.push((x >> 24) as u8);
    assert(final(out)@ =~= old(out)@ + le_u32(x));
}

pub fn push_be_u32(out: &mut Vec<u8>, x: u32)
    ensures
        final(out)@ == old(out)@ + be_u32(x),
{
    out.push((x >> 24) as u8);
    out.push((x >> 16) as u8);
    out.push((x >> 8) as u8);
    out.push(x as u8);
    assert(final(out)@ =~= old(out)@ + be_u32(x));
}

pub fn push_le_u64(out: &mut Vec<u8>, x: u64)
    ensures
        final(out)@ == old(out)@ + le_u64(x),
{
    out.push(x as u8);
    out.push((x >> 8) as u8);
    out.push((x >> 16) as u8);
    out.push((x >> 24) as u8);
    out.push((x >> 32) as u8);
    out.push((x >> 40) as u8);
    out.push((x >> 48) as u8);
    out.push((x >> 56) as u8);
    assert(final(out)@ =~= old(out)@ + le_u64(x));
}

pub fn push_be_u64(out: &mut Vec<u8>, x: u64)
    ensures
        final(out)@ == old(out)@ + be_u64(x),
{
    out.push((x >> 56) as u8);
    out.push((x >> 48) as u8);
    out.push((x >> 40) as u8);
    out.push((x >> 32) as u8);
    out.push((x >> 24) as u8);
    out.push((x >> 16) as u8);
    out.push((x >> 8) as u8);
    out.push(x as u8);
    assert(final(out)@ =~= old(out)@ + be_u64(x));
}

/// Whether every byte of `b` is zero.
pub fn all_zero(b: &[u8]) -> (r: bool)
    ensures
        r == (forall|i: int| 0 <= i < b@.len() ==> b@[i] == 0),
{
    let n = b.len();
    let mut i: usize = 0;
    while i < n
        invariant
            n == b@.len(),
            i <= n,
            forall|j: int| 0 <= j < i ==> b@[j] == 0,
        decreases n - i,
    {
        if b[i] != 0 {
            return false;
        }
        i += 1;
    }
    true
}

/// Byte-wise equality of two slices.
pub fn bytes_eq(a: &[u8], b: &[u8]) -> (r: bool)
    ensures
        r == (a@ == b@),
{
    if a.len() != b.len() {
        return false;
    }
    let n = a.len();
    let mut i: usize = 0;
    while i < n
        invariant
            n == a@.len(),
            n == b@.len(),
            i <= n,
            forall|j: int| 0 <= j < i ==> a@[j] == b@[j],
        decreases n - i,
    {
        if a[i] != b[i] {
            return false;
        }
        i += 1;
    }
    assert(a@ =~= b@);
    true
}

/// A copy of `b[start..end]`.
pub fn bytes_range(b: &[u8], start: usize, end: usize) -> (out: Vec<u8>)
    requires
        start <= end <= b@.len(),
    ensures
        out@ == b@.subrange(start as int, end as int),
{
    let mut out: Vec<u8> = Vec::new();
    let mut k = start;
    while k < end
        invariant
            start <= k <= end <= b@.len(),
            out@ == b@.subrange(start as int, k as int),
        decreases end - k,
    {
        out.push(b[k]);
        k += 1;
        assert(b@.subrange(start as int, k as int) =~= b@.subrange(start as int, k - 1 as int).push(
            b@[k - 1],
        ));
    }
    out
}

// ---------------------------------------------------------------------------
// Lexicographic order (the order of `String`: for valid UTF-8, byte order and
// code-point order agree)
// ---------------------------------------------------------------------------

/// `a` sorts strictly before `b`.
pub open spec fn seq_lt(a: Seq<char>, b: Seq<char>) -> bool
    decreases a.len(),
{
    if a.len() == 0 {
        b.len() > 0
    } else if b.len() == 0 {
        false
    } else if a[0] != b[0] {
        a[0] < b[0]
    } else {
        seq_lt(a.drop_first(), b.drop_first())
    }
}

pub proof fn lemma_seq_lt_irreflexive(a: Seq<char>)
    ensures
        !seq_lt(a, a),
    decreases a.len(),
{
    if a.len() > 0 {
        lemma_seq_lt_irreflexive(a.drop_first());
    }
}

pub proof fn lemma_seq_lt_total(a: Seq<char>, b: Seq<char>)
    ensures
        a == b || seq_lt(a, b) || seq_lt(b, a),
    decreases a.len(),
{
    if a.len() > 0 && b.len() > 0 && a[0] == b[0] {
        lemma_seq_lt_total(a.drop_first(), b.drop_first());
        if a.drop_first() == b.drop_first() {
            assert(a =~= seq![a[0]] + a.drop_first());
            assert(b =~= seq![b[0]] + b.drop_first());
        }
    } else if a.len() == 0 && b.len() == 0 {
        assert(a =~= b);
    }
}

pub proof fn lemma_seq_lt_asymmetric(a: Seq<char>, b: Seq<char>)
    ensures
        !(seq_lt(a, b) && seq_lt(b, a)),
    decreases a.len(),
{
    if a.len() > 0 && b.len() > 0 && a[0] == b[0] {
        lemma_seq_lt_asymmetric(a.drop_first(), b.drop_first());
    }
}

pub proof fn lemma_seq_lt_transitive(a: Seq<char>, b: Seq<char>, c: Seq<char>)
    requires
        seq_lt(a, b),
        seq_lt(b, c),
    ensures
        seq_lt(a, c),
    decreases a.len(),
{
    if a.len() > 0 && b.len() > 0 && c.len() > 0 && a[0] == b[0] && b[0] == c[0] {
        lemma_seq_lt_transitive(a.drop_first(), b.drop_first(), c.drop_first());
    }
}

/// Keys in strictly increasing order (and so pairwise distinct).
pub open spec fn keys_sorted(ks: Seq<Seq<char>>) -> bool {
    forall|i: int, j: int| 0 <= i < j < ks.len() ==> seq_lt(#[trigger] ks[i], #[trigger] ks[j])
}

/// Inserting a key between smaller and larger keys keeps the order strict.
pub proof fn lemma_sorted_insert(ks: Seq<Seq<char>>, p: int, k: Seq<char>)
    requires
        keys_sorted(ks),
        0 <= p <= ks.len(),
        forall|i: int| 0 <= i < p ==> seq_lt(#[trigger] ks[i], k),
        forall|i: int| p <= i < ks.len() ==> seq_lt(k, #[trigger] ks[i]),
    ensures
        keys_sorted(ks.insert(p, k)),
{
    let nks = ks.insert(p, k);
    assert forall|i: int, j: int| 0 <= i < j < nks.len() implies seq_lt(#[trigger] nks[i], #[trigger] nks[j]) by {
        if j < p {
            assert(nks[i] == ks[i] && nks[j] == ks[j]);
        } else if j == p {
            assert(nks[i] == ks[i]);
        } else if i < p {
            assert(nks[i] == ks[i] && nks[j] == ks[j - 1]);
        } else if i == p {
            assert(nks[j] == ks[j - 1]);
        } else {
            assert(nks[i] == ks[i - 1] && nks[j] == ks[j - 1]);
        }
    }
}

/// A key that lies strictly between its neighbours is not among the keys.
pub proof fn lemma_absent_between(ks: Seq<Seq<char>>, p: int, k: Seq<char>)
    requires
        0 <= p <= ks.len(),
        forall|i: int| 0 <= i < ks.len() ==> (i < p ==> seq_lt(#[trigger] ks[i], k)) && (p <= i ==> seq_lt(k, ks[i])),
    ensures
        !ks.contains(k),
{
    lemma_seq_lt_irreflexive(k);
    if ks.contains(k) {
        let i = choose|i: int| 0 <= i < ks.len() && ks[i] == k;
        assert(i < p ==> seq_lt(ks[i], k));
    }
}

/// No two entries have the same characters.
pub open spec fn distinct_views(v: Seq<String>) -> bool {
    forall|i: int, j: int| 0 <= i < j < v.len() ==> (#[trigger] v[i])@ != (#[trigger] v[j])@
}

/// The strings of `v` (pairwise distinct) in strictly increasing order.
pub fn sort_distinct_strings(v: &[String]) -> (r: Vec<String>)
    requires
        distinct_views(v@),
    ensures
        r@.len() == v@.len(),
        keys_sorted(string_seq_views(r@)),
        forall|x: String| r@.contains(x) <==> v@.contains(x),
{
    let n = v.len();
    let mut out: Vec<String> = Vec::new();
    let mut i: usize = 0;
    while i < n
        invariant
            n == v@.len(),
            distinct_views(v@),
            i <= n,
            out@.len() == i,
            keys_sorted(string_seq_views(out@)),
            forall|x: String| out@.contains(x) <==> v@.take(i as int).contains(x),
        decreases n - i,
    {
        let s = v[i].clone();
        let sc = chars_of(s.as_str());
        let ghost ks = string_seq_views(out@);
        let m = out.len();
        let mut p: usize = 0;
        while p < m
            invariant
                m == out@.len(),
                ks == string_seq_views(out@),
                sc@ == s@,
                p <= m,
                forall|k: int| 0 <= k < p ==> seq_lt(#[trigger] ks[k], s@),
            ensures
                p <= m,
                forall|k: int| 0 <= k < p ==> seq_lt(#[trigger] ks[k], s@),
                p < m ==> !seq_lt(ks[p as int], s@),
            decreases m - p,
        {
            let c = chars_of(out[p].as_str());
            assert(c@ == ks[p as int]);
            if !chars_lt(&c, &sc) {
                break;
            }
            p += 1;
        }
        proof {
            assert forall|k: int| 0 <= k < out@.len() implies #[trigger] out@[k]@ != s@ by {
                assert(out@.contains(out@[k]));
                let t = v@.take(i as int);
                let j = choose|j: int| 0 <= j < t.len() && t[j] == out@[k];
                assert(v@[j] == out@[k]);
            }
            if p < m {
                lemma_seq_lt_total(ks[p as int], s@);
                assert(ks[p as int] == out@[p as int]@);
                assert(seq_lt(s@, ks[p as int]));
                assert forall|k: int| p <= k < ks.len() implies seq_lt(s@, #[trigger] ks[k]) by {
                    if p < k {
                        lemma_seq_lt_transitive(s@, ks[p as int], ks[k]);
                    }
                }
            }
            lemma_sorted_insert(ks, p as int, s@);
        }
        let ghost before = out@;
        out.insert(p, s);
        proof {
            assert(string_seq_views(out@) =~= ks.insert(p as int, v@[i as int]@));
            assert(v@.take(i + 1 as int) =~= v@.take(i as int).push(v@[i as int]));
            assert forall|x: String| out@.contains(x) <==> v@.take(i + 1 as int).contains(x) by {
                let t1 = v@.take(i + 1 as int);
                let t0 = v@.take(i as int);
                if out@.contains(x) {
                    let k = choose|k: int| 0 <= k < out@.len() && out@[k] == x;
                    if k == p {
                        assert(t1[i as int] == x);
                    } else {
                        if k < p {
                            assert(before[k] == x);
                        } else {
                            assert(before[k - 1] == x);
                        }
                        assert(before.contains(x));
                        assert(t0.contains(x));
                        let j = choose|j: int| 0 <= j < t0.len() && t0[j] == x;
                        assert(t1[j] == x);
                    }
                }
                if v@.take(i + 1 as int).contains(x) {
                    let t = v@.take(i + 1 as int);
                    let j = choose|j: int| 0 <= j < t.len() && t[j] == x;
                    if j < i {
                        assert(v@.take(i as int)[j] == x);
                        assert(v@.take(i as int).contains(x));
                        assert(before.contains(x));
                        let k = choose|k: int| 0 <= k < before.len() && before[k] == x;
                        if k < p {
                            assert(out@[k] == x);
                        } else {
                            assert(out@[k + 1] == x);
                        }
                    } else {
                        assert(out@[p as int] == x);
                    }
                }
            }
        }
        i += 1;
    }
    assert(v@.take(n as int) =~= v@);
    out
}

/// `a` sorts strictly before `b` (lexicographic byte order).
pub open spec fn bytes_lt(a: Seq<u8>, b: Seq<u8>) -> bool
    decreases a.len(),
{
    if a.len() == 0 {
        b.len() > 0
    } else if b.len() == 0 {
        false
    } else if a[0] != b[0] {
        a[0] < b[0]
    } else {
        bytes_lt(a.drop_first(), b.drop_first())
    }
}

pub proof fn lemma_bytes_lt_irreflexive(a: Seq<u8>)
    ensures
        !bytes_lt(a, a),
    decreases a.len(),
{
    if a.len() > 0 {
        lemma_bytes_lt_irreflexive(a.drop_first());
    }
}

pub proof fn lemma_bytes_lt_total(a: Seq<u8>, b: Seq<u8>)
    ensures
        a == b || bytes_lt(a, b) || bytes_lt(b, a),
    decreases a.len(),
{
    if a.len() > 0 && b.len() > 0 && a[0] == b[0] {
        lemma_bytes_lt_total(a.drop_first(), b.drop_first());
        if a.drop_first() == b.drop_first() {
            assert(a =~= seq![a[0]] + a.drop_first());
            assert(b =~= seq![b[0]] + b.drop_first());
        }
    } else if a.len() == 0 && b.len() == 0 {
        assert(a =~= b);
    }
}

pub proof fn lemma_bytes_lt_transitive(a: Seq<u8>, b: Seq<u8>, c: Seq<u8>)
    requires
        bytes_lt(a, b),
        bytes_lt(b, c),
    ensures
        bytes_lt(a, c),
    decreases a.len(),
{
    if a.len() > 0 && b.len() > 0 && c.len() > 0 && a[0] == b[0] && b[0] == c[0] {
        lemma_bytes_lt_transitive(a.drop_first(), b.drop_first(), c.drop_first());
    }
}

/// Lexicographic comparison of two byte slices.
pub fn bytes_less(a: &[u8], b: &[u8]) -> (r: bool)
    ensures
        r == bytes_lt(a@, b@),
{
    let n = a.len();
    let m = b.len();
    let mut i: usize = 0;
    proof {
        assert(a@.skip(0) =~= a@);
        assert(b@.skip(0) =~= b@);
    }
    while i < n && i < m
        invariant
            n == a@.len(),
            m == b@.len(),
            i <= n,
            i <= m,
            bytes_lt(a@, b@) == bytes_lt(a@.skip(i as int), b@.skip(i as int)),
        decreases n - i,
    {
        if a[i] != b[i] {
            proof {
                assert(a@.skip(i as int)[0] == a@[i as int]);
                assert(b@.skip(i as int)[0] == b@[i as int]);
            }
            return a[i] < b[i];
        }
        proof {
            assert(a@.skip(i as int).drop_first() =~= a@.skip(i + 1 as int));
            assert(b@.skip(i as int).drop_first() =~= b@.skip(i + 1 as int));
        }
        i += 1;
    }
    i < m
}

/// Lexicographic comparison of two character slices.
pub fn chars_lt(a: &[char], b: &[char]) -> (r: bool)
    ensures
        r == seq_lt(a@, b@),
{
    let n = a.len();
    let m = b.len();
    let mut i: usize = 0;
    proof {
        assert(a@.skip(0) =~= a@);
        assert(b@.skip(0) =~= b@);
    }
    while i < n && i < m
        invariant
            n == a@.len(),
            m == b@.len(),
            i <= n,
            i <= m,
            seq_lt(a@, b@) == seq_lt(a@.skip(i as int), b@.skip(i as int)),
        decreases n - i,
    {
        if a[i] != b[i] {
            proof {
                assert(a@.skip(i as int)[0] == a@[i as int]);
                assert(b@.skip(i as int)[0] == b@[i as int]);
            }
            return a[i] < b[i];
        }
        proof {
            assert(a@.skip(i as int).drop_first() =~= a@.skip(i + 1 as int));
            assert(b@.skip(i as int).drop_first() =~= b@.skip(i + 1 as int));
        }
        i += 1;
    }
    i < m
}

// ---------------------------------------------------------------------------
// Collections of strings
// ---------------------------------------------------------------------------

pub open spec fn string_seq_views(v: Seq<String>) -> Seq<Seq<char>> {
    v.map_values(|s: String| s@)
}

/// Entry `i` is the first one with its value.
pub open spec fn is_first_occurrence(s: Seq<Seq<char>>, i: int) -> bool {
    forall|j: int| 0 <= j < i ==> #[trigger] s[j] != s[i]
}

/// Number of distinct values among the first `k` entries.
pub open spec fn distinct_upto(s: Seq<Seq<char>>, k: int) -> nat
    decreases k,
{
    if k <= 0 {
        0
    } else {
        distinct_upto(s, k - 1) + if is_first_occurrence(s, k - 1) {
            1nat
        } else {
            0nat
        }
    }
}

/// Number of distinct values (the size of the set the entries form).
pub open spec fn distinct_count(s: Seq<Seq<char>>) -> nat {
    distinct_upto(s, s.len() as int)
}

pub proof fn lemma_distinct_upto_le(s: Seq<Seq<char>>, k: int)
    ensures
        distinct_upto(s, k) <= if k < 0 {
            0
        } else {
            k
        },
    decreases k,
{
    if k > 0 {
        lemma_distinct_upto_le(s, k - 1);
    }
}

/// Whether `v` holds a string equal to `x`.
pub fn strings_contain(v: &[String], x: &String) -> (r: bool)
    ensures
        r == string_seq_views(v@).contains(x@),
{
    let n = v.len();
    let mut i: usize = 0;
    while i < n
        invariant
            n == v@.len(),
            i <= n,
            forall|j: int| 0 <= j < i ==> #[trigger] v@[j]@ != x@,
        decreases n - i,
    {
        if v[i] == *x {
            assert(string_seq_views(v@)[i as int] == x@);
            return true;
        }
        i += 1;
    }
    proof {
        if string_seq_views(v@).contains(x@) {
            let k = choose|k: int| 0 <= k < v@.len() && string_seq_views(v@)[k] == x@;
            assert(v@[k]@ == x@);
        }
    }
    false
}

/// Number of distinct strings in `v`.
pub fn count_distinct_strings(v: &[String]) -> (r: usize)
    ensures
        r == distinct_count(string_seq_views(v@)),
{
    let ghost sv = string_seq_views(v@);
    let n = v.len();
    let mut count: usize = 0;
    let mut i: usize = 0;
    while i < n
        invariant
            n == v@.len(),
            sv == string_seq_views(v@),
            i <= n,
            count == distinct_upto(sv, i as int),
        decreases n - i,
    {
        proof {
            lemma_distinct_upto_le(sv, i as int);
        }
        let mut first = true;
        let mut j: usize = 0;
        while j < i
            invariant
                n == v@.len(),
                sv == string_seq_views(v@),
                i < n,
                j <= i,
                first == (forall|k: int| 0 <= k < j ==> #[trigger] sv[k] != sv[i as int]),
            decreases i - j,
        {
            if v[j] == v[i] {
                assert(sv[j as int] == sv[i as int]);
                first = false;
            }
            j += 1;
        }
        if first {
            count = count + 1;
        }
        i += 1;
    }
    count
}

// ---------------------------------------------------------------------------
// JSON text (serde_json's compact output)
// ---------------------------------------------------------------------------

pub open spec fn hex_lower_byte(n: int) -> u8 {
    if n < 10 {
        (48 + n) as u8
    } else {
        (87 + n) as u8
    }
}

/// How one byte of a string's UTF-8 encoding is written inside a JSON
/// string: `"` and `\` are backslash-escaped, control bytes use the short
/// escapes `\b \t \n \f \r` or `\u00XX` (lowercase hex), every other byte
/// is copied.
pub open spec fn json_escape_byte(b: u8) -> Seq<u8> {
    if b == 34 {
        seq![92u8, 34u8]
    } else if b == 92 {
        seq![92u8, 92u8]
    } else if b == 8 {
        seq![92u8, 98u8]
    } else if b == 9 {
        seq![92u8, 116u8]
    } else if b == 10 {
        seq![92u8, 110u8]
    } else if b == 12 {
        seq![92u8, 102u8]
    } else if b == 13 {
        seq![92u8, 114u8]
    } else if b < 32 {
        seq![92u8, 117u8, 48u8, 48u8, hex_lower_byte((b / 16) as int), hex_lower_byte((b % 16) as int)]
    } else {
        seq![b]
    }
}

pub open spec fn json_escaped(b: Seq<u8>) -> Seq<u8>
    decreases b.len(),
{
    if b.len() == 0 {
        seq![]
    } else {
        json_escaped(b.drop_last()) + json_escape_byte(b.last())
    }
}

/// A JSON string literal holding `s`.
pub open spec fn json_string(s: Seq<char>) -> Seq<u8> {
    seq![34u8] + json_escaped(encode_utf8(s)) + seq![34u8]
}

/// ASCII decimal digits of `n`, as bytes.
pub open spec fn dec_bytes(n: nat) -> Seq<u8>
    decreases n,
{
    if n < 10 {
        seq![(48 + n) as u8]
    } else {
        dec_bytes(n / 10) + seq![(48 + n % 10) as u8]
    }
}

fn hex_lower(n: u8) -> (r: u8)
    requires
        n < 16,
    ensures
        r == hex_lower_byte(n as int),
{
    if n < 10 {
        48 + n
    } else {
        87 + n
    }
}

/// Appends the JSON escape of one byte.
pub fn push_json_escape_byte(out: &mut Vec<u8>, b: u8)
    ensures
        final(out)@ == old(out)@ + json_escape_byte(b),
{
    if b == 34 {
        out.push(92u8);
        out.push(34u8);
    } else if b == 92 {
        out.push(92u8);
        out.push(92u8);
    } else if b == 8 {
        out.push(92u8);
        out.push(98u8);
    } else if b == 9 {
        out.push(92u8);
        out.push(116u8);
    } else if b == 10 {
        out.push(92u8);
        out.push(110u8);
    } else if b == 12 {
        out.push(92u8);
        out.push(102u8);
    } else if b == 13 {
        out.push(92u8);
        out.push(114u8);
    } else if b < 32 {
        out.push(92u8);
        out.push(117u8);
        out.push(48u8);
        out.push(48u8);
        out.push(hex_lower(b / 16));
        out.push(hex_lower(b % 16));
    } else {
        out.push(b);
    }
    assert(final(out)@ =~= old(out)@ + json_escape_byte(b));
}

/// Appends `s` as a JSON string literal.
pub fn push_json_string(out: &mut Vec<u8>, s: &str)
    ensures
        final(out)@ == old(out)@ + json_string(s@),
{
    let ghost start = out@;
    let bytes = s.as_bytes();
    out.push(34u8);
    let n = bytes.len();
    let mut i: usize = 0;
    proof {
        assert(bytes@.take(0) =~= Seq::<u8>::empty());
    }
    while i < n
        invariant
            n == bytes@.len(),
            i <= n,
            out@ == start + seq![34u8] + json_escaped(bytes@.take(i as int)),
        decreases n - i,
    {
        push_json_escape_byte(out, bytes[i]);
        proof {
            let t = bytes@.take(i + 1 as int);
            assert(t.drop_last() =~= bytes@.take(i as int));
            assert(t.last() == bytes@[i as int]);
        }
        i += 1;
        assert(out@ =~= start + seq![34u8] + json_escaped(bytes@.take(i as int)));
    }
    out.push(34u8);
    proof {
        assert(bytes@.take(n as int) =~= bytes@);
    }
    assert(final(out)@ =~= start + json_string(s@));
}

/// Appends the ASCII decimal digits of `n`.
pub fn push_dec_bytes(out: &mut Vec<u8>, n: u64)
    ensures
        final(out)@ == old(out)@ + dec_bytes(n as nat),
    decreases n,
{
    if n >= 10 {
        push_dec_bytes(out, n / 10);
    }
    let d: u8 = (n % 10) as u8;
    out.push(48 + d);
    proof {
        if n >= 10 {
            assert(final(out)@ =~= old(out)@ + dec_bytes(n as nat));
        } else {
            assert(dec_bytes(n as nat) =~= seq![(48 + n) as u8]);
        }
    }
}

// ---------------------------------------------------------------------------
// Splitting at a separator (`str::split(sep)`)
// ---------------------------------------------------------------------------

/// The pieces of `s` between occurrences of `sep` (an empty text gives one
/// empty piece), as `str::split` yields them.
pub open spec fn split_on(s: Seq<char>, sep: char) -> Seq<Seq<char>>
    decreases s.len(),
{
    if s.len() == 0 {
        seq![seq![]]
    } else {
        let prev = split_on(s.drop_last(), sep);
        if s.last() == sep {
            prev.push(seq![])
        } else {
            prev.update(prev.len() - 1, prev.last().push(s.last()))
        }
    }
}

pub open spec fn has_no(s: Seq<char>, c: char) -> bool {
    forall|i: int| 0 <= i < s.len() ==> #[trigger] s[i] != c
}

/// Splits a character slice at every `sep`.
pub fn split_at_char(cs: &[char], sep: char) -> (r: Vec<Vec<char>>)
    ensures
        r@.map_values(|v: Vec<char>| v@) == split_on(cs@, sep),
{
    let mut parts: Vec<Vec<char>> = Vec::new();
    let mut cur: Vec<char> = Vec::new();
    let n = cs.len();
    let mut i: usize = 0;
    proof {
        assert(cs@.take(0) =~= Seq::<char>::empty());
        assert(parts@.map_values(|v: Vec<char>| v@).push(cur@) =~= split_on(cs@.take(0), sep));
    }
    while i < n
        invariant
            n == cs@.len(),
            i <= n,
            parts@.map_values(|v: Vec<char>| v@).push(cur@) == split_on(cs@.take(i as int), sep),
        decreases n - i,
    {
        let c = cs[i];
        let ghost before = parts@.map_values(|v: Vec<char>| v@).push(cur@);
        proof {
            let t = cs@.take(i + 1 as int);
            assert(t.drop_last() =~= cs@.take(i as int));
            assert(t.last() == c);
        }
        if c == sep {
            let done = cur;
            parts.push(done);
            cur = Vec::new();
            proof {
                assert(parts@.map_values(|v: Vec<char>| v@).push(cur@) =~= before.push(seq![]));
            }
        } else {
            cur.push(c);
            proof {
                assert(parts@.map_values(|v: Vec<char>| v@).push(cur@) =~= before.update(
                    before.len() - 1,
                    before.last().push(c),
                ));
            }
        }
        i += 1;
    }
    proof {
        assert(cs@.take(n as int) =~= cs@);
    }
    parts.push(cur);
    proof {
        assert(parts@.map_values(|v: Vec<char>| v@) =~= split_on(cs@, sep));
    }
    parts
}

/// Text without the separator is a single piece.
pub proof fn lemma_split_single(b: Seq<char>, sep: char)
    requires
        has_no(b, sep),
    ensures
        split_on(b, sep) == seq![b],
    decreases b.len(),
{
    if b.len() > 0 {
        let a = b.drop_last();
        assert(has_no(a, sep)) by {
            assert forall|i: int| 0 <= i < a.len() implies #[trigger] a[i] != sep by {
                assert(a[i] == b[i]);
            }
        }
        lemma_split_single(a, sep);
        assert(b.last() != sep);
        assert(a.push(b.last()) =~= b);
        assert(split_on(b, sep) =~= seq![b]);
    } else {
        assert(b =~= Seq::<char>::empty());
    }
}

/// Appending a separator and a separator-free piece appends that piece.
pub proof fn lemma_split_append(a: Seq<char>, b: Seq<char>, sep: char)
    requires
        has_no(b, sep),
    ensures
        split_on(a + seq![sep] + b, sep) == split_on(a, sep).push(b),
    decreases b.len(),
{
    let t = a + seq![sep] + b;
    if b.len() == 0 {
        assert(t.drop_last() =~= a);
        assert(t.last() == sep);
        assert(b =~= Seq::<char>::empty());
    } else {
        let b0 = b.drop_last();
        assert(has_no(b0, sep)) by {
            assert forall|i: int| 0 <= i < b0.len() implies #[trigger] b0[i] != sep by {
                assert(b0[i] == b[i]);
            }
        }
        lemma_split_append(a, b0, sep);
        assert(t.drop_last() =~= a + seq![sep] + b0);
        assert(t.last() == b.last());
        assert(b.last() != sep);
        assert(b0.push(b.last()) =~= b);
        let prev = split_on(a, sep).push(b0);
        assert(prev.update(prev.len() - 1, prev.last().push(b.last())) =~= split_on(a, sep).push(b));
    }
}

/// A lowercase hexadecimal digit.
pub open spec fn hex_digit_lower(n: int) -> char {
    if n < 10 {
        ('0' as int + n) as char
    } else {
        ('a' as int + n - 10) as char
    }
}

/// A byte as two lowercase hexadecimal digits (`{:02x}`).
pub open spec fn hex2_lower(x: u8) -> Seq<char> {
    seq![hex_digit_lower(x as int / 16), hex_digit_lower(x as int % 16)]
}

/// The bytes as two-digit lowercase hexadecimal, separated by `, `.
pub open spec fn hex_byte_items(b: Seq<u8>) -> Seq<char>
    decreases b.len(),
{
    if b.len() == 0 {
        seq![]
    } else if b.len() == 1 {
        hex2_lower(b[0])
    } else {
        hex_byte_items(b.drop_last()) + seq![',', ' '] + hex2_lower(b.last())
    }
}

/// A byte list as `{:02x?}` writes it: `[0a, ff, ...]`.
pub open spec fn hex_byte_list(b: Seq<u8>) -> Seq<char> {
    seq!['['] + hex_byte_items(b) + seq![']']
}

fn hex_digit_lower_char(n: u8) -> (c: char)
    requires
        n < 16,
    ensures
        c == hex_digit_lower(n as int),
{
    if n < 10 {
        (48 + n) as char
    } else {
        (87 + n) as char
    }
}

/// Appends `hex_byte_list(b)` to `out`.
pub fn push_hex_byte_list(out: &mut Vec<char>, b: &[u8])
    ensures
        final(out)@ == old(out)@ + hex_byte_list(b@),
{
    let ghost start = out@;
    out.push('[');
    let n = b.len();
    let mut i: usize = 0;
    while i < n
        invariant
            n == b@.len(),
            i <= n,
            out@ == start + seq!['['] + hex_byte_items(b@.take(i as int)),
        decreases n - i,
    {
        let x = b[i];
        if i > 0 {
            out.push(',');
            out.push(' ');
        }
        out.push(hex_digit_lower_char(x / 16));
        out.push(hex_digit_lower_char(x % 16));
        proof {
            let t = b@.take(i + 1 as int);
            assert(t.drop_last() =~= b@.take(i as int));
            assert(t.last() == x);
            if i == 0 {
                assert(t.len() == 1);
                assert(hex_byte_items(b@.take(0)) =~= Seq::<char>::empty());
            }
        }
        i += 1;
        proof {
            assert(out@ =~= start + seq!['['] + hex_byte_items(b@.take(i as int)));
        }
    }
    out.push(']');
    assert(b@.take(n as int) =~= b@);
    assert(out@ =~= start + hex_byte_list(b@));
}

} // verus!
