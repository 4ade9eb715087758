//! Byte-level text predicates shared by the catalog and the inspectors.
//!
//! All text is compared through its UTF-8 bytes: equality of bytes is equality
//! of text, and ASCII case folding never touches a byte of a multi-byte
//! character.

use vstd::prelude::*;

verus! {

/// The byte with ASCII upper-case letters mapped to lower case.
pub open spec fn fold_ascii(b: u8) -> u8 {
    if 0x41 <= b <= 0x5a {
        (b + 0x20) as u8
    } else {
        b
    }
}

/// Whether two bytes are the same, optionally up to ASCII case.
pub open spec fn same_byte(a: u8, b: u8, ignore_case: bool) -> bool {
    if ignore_case {
        fold_ascii(a) == fold_ascii(b)
    } else {
        a == b
    }
}

/// Whether `needle` occurs in `hay` starting at index `at`.
pub open spec fn occurs_at(hay: Seq<u8>, needle: Seq<u8>, at: int, ignore_case: bool) -> bool {
    &&& 0 <= at
    &&& at + needle.len() <= hay.len()
    &&& forall|k: int|
        0 <= k < needle.len() ==> same_byte(#[trigger] hay[at + k], needle[k], ignore_case)
}

/// Whether `needle` occurs somewhere in `hay`.
pub open spec fn occurs_in(hay: Seq<u8>, needle: Seq<u8>, ignore_case: bool) -> bool {
    exists|at: int| occurs_at(hay, needle, at, ignore_case)
}

/// Lower-cases one ASCII letter and leaves every other byte alone.
pub fn fold_byte(b: u8) -> (r: u8)
    ensures
        r == fold_ascii(b),
{
    if 0x41 <= b && b <= 0x5a {
        b + 0x20
    } else {
        b
    }
}

fn bytes_agree(a: u8, b: u8, ignore_case: bool) -> (r: bool)
    ensures
        r == same_byte(a, b, ignore_case),
{
    if ignore_case {
        fold_byte(a) == fold_byte(b)
    } else {
        a == b
    }
}

/// Tests one alignment of `needle` against `hay`.
fn matches_at(hay: &[u8], needle: &[u8], at: usize, ignore_case: bool) -> (r: bool)
    requires
        at + needle@.len() <= hay@.len(),
    ensures
        r == occurs_at(hay@, needle@, at as int, ignore_case),
{
    let hay_len: usize = hay.len();
    let mut k: usize = 0;
    while k < needle.len()
        invariant
            k <= needle@.len(),
            hay_len == hay@.len(),
            at + needle@.len() <= hay@.len(),
            forall|j: int| 0 <= j < k ==> same_byte(#[trigger] hay@[at + j], needle@[j], ignore_case),
        decreases needle@.len() - k,
    {
        if !bytes_agree(hay[at + k], needle[k], ignore_case) {
            return false;
        }
        k += 1;
    }
    true
}

/// Searches `hay` for `needle`, byte by byte.
pub fn contains_bytes(hay: &[u8], needle: &[u8], ignore_case: bool) -> (r: bool)
    ensures
        r == occurs_in(hay@, needle@, ignore_case),
{
    if needle.len() > hay.len() {
        return false;
    }
    let last: usize = hay.len() - needle.len();
    let mut at: usize = 0;
    while at < last
        invariant
            last == hay@.len() - needle@.len(),
            at <= last,
            forall|j: int| 0 <= j < at ==> !occurs_at(hay@, needle@, j, ignore_case),
        decreases last - at,
    {
        if matches_at(hay, needle, at, ignore_case) {
            return true;
        }
        at += 1;
    }
    matches_at(hay, needle, last, ignore_case)
}

/// Lexicographic order on bytes, a proper prefix coming first. On UTF-8 text
/// this is the order of the code points.
pub open spec fn lex_lt(a: Seq<u8>, b: Seq<u8>) -> bool
    decreases a.len(),
{
    if b.len() == 0 {
        false
    } else if a.len() == 0 {
        true
    } else if a[0] != b[0] {
        a[0] < b[0]
    } else {
        lex_lt(a.drop_first(), b.drop_first())
    }
}

/// Nothing comes before itself.
pub proof fn lemma_lex_irreflexive(a: Seq<u8>)
    ensures
        !lex_lt(a, a),
    decreases a.len(),
{
    if a.len() > 0 {
        lemma_lex_irreflexive(a.drop_first());
    }
}

/// The order is transitive.
pub proof fn lemma_lex_transitive(a: Seq<u8>, b: Seq<u8>, c: Seq<u8>)
    requires
        lex_lt(a, b),
        lex_lt(b, c),
    ensures
        lex_lt(a, c),
    decreases a.len(),
{
    if a.len() > 0 && a[0] == b[0] && b[0] == c[0] {
        lemma_lex_transitive(a.drop_first(), b.drop_first(), c.drop_first());
    }
}

/// Two different byte strings are always ordered one way or the other.
pub proof fn lemma_lex_connected(a: Seq<u8>, b: Seq<u8>)
    ensures
        lex_lt(a, b) || lex_lt(b, a) || a == b,
    decreases a.len(),
{
    if a.len() == 0 || b.len() == 0 {
        if a.len() == 0 && b.len() == 0 {
            assert(a =~= b);
        }
    } else if a[0] == b[0] {
        lemma_lex_connected(a.drop_first(), b.drop_first());
        if a.drop_first() == b.drop_first() {
            assert(a =~= seq![a[0]] + a.drop_first());
            assert(b =~= seq![b[0]] + b.drop_first());
        }
    }
}

/// Compares two byte strings lexicographically.
pub fn bytes_less(a: &[u8], b: &[u8]) -> (r: bool)
    ensures
        r == lex_lt(a@, b@),
{
    let mut i: usize = 0;
    proof {
        assert(a@.skip(0) =~= a@);
        assert(b@.skip(0) =~= b@);
    }
    while i < a.len() && i < b.len()
        invariant
            i <= a@.len(),
            i <= b@.len(),
            lex_lt(a@, b@) == lex_lt(a@.skip(i as int), b@.skip(i as int)),
        decreases a@.len() - i,
    {
        proof {
            assert(a@.skip(i as int).drop_first() =~= a@.skip(i + 1));
            assert(b@.skip(i as int).drop_first() =~= b@.skip(i + 1));
        }
        if a[i] != b[i] {
            return a[i] < b[i];
        }
        i += 1;
    }
    i < b.len()
}

/// Whether two byte strings are the same.
pub fn bytes_equal(a: &[u8], b: &[u8]) -> (r: bool)
    ensures
        r == (a@ == b@),
{
    if a.len() != b.len() {
        return false;
    }
    let mut i: usize = 0;
    while i < a.len()
        invariant
            i <= a@.len(),
            a@.len() == b@.len(),
            forall|j: int| 0 <= j < i ==> a@[j] == b@[j],
        decreases a@.len() - i,
    {
        if a[i] != b[i] {
            return false;
        }
        i += 1;
    }
    assert(a@ =~= b@);
    true
}

/// The white space of Unicode: the characters with the property
/// `White_Space`.
pub open spec fn is_space(c: char) -> bool {
    let u = c as u32;
    ||| 0x09 <= u <= 0x0d
    ||| u == 0x20
    ||| u == 0x85
    ||| u == 0xa0
    ||| u == 0x1680
    ||| 0x2000 <= u <= 0x200a
    ||| u == 0x2028
    ||| u == 0x2029
    ||| u == 0x202f
    ||| u == 0x205f
    ||| u == 0x3000
}

/// Whether `at` is the first character of `s` that is no white space.
pub open spec fn first_solid(s: Seq<char>, at: int) -> bool {
    &&& 0 <= at < s.len()
    &&& !is_space(s[at])
    &&& forall|j: int| 0 <= j < at ==> is_space(#[trigger] s[j])
}

/// Whether `at` is the last character of `s` that is no white space.
pub open spec fn last_solid(s: Seq<char>, at: int) -> bool {
    &&& 0 <= at < s.len()
    &&& !is_space(s[at])
    &&& forall|j: int| at < j < s.len() ==> is_space(#[trigger] s[j])
}

/// `s` without the white space at its two ends.
pub open spec fn trimmed(s: Seq<char>) -> Seq<char> {
    if forall|j: int| 0 <= j < s.len() ==> is_space(#[trigger] s[j]) {
        Seq::empty()
    } else {
        s.subrange(choose|a: int| first_solid(s, a), (choose|b: int| last_solid(s, b)) + 1)
    }
}

fn is_white(c: char) -> (r: bool)
    ensures
        r == is_space(c),
{
    let u: u32 = c as u32;
    (0x09 <= u && u <= 0x0d) || u == 0x20 || u == 0x85 || u == 0xa0 || u == 0x1680 || (0x2000 <= u
        && u <= 0x200a) || u == 0x2028 || u == 0x2029 || u == 0x202f || u == 0x205f || u == 0x3000
}

/// Strips the white space from both ends of `s`.
pub fn trim(s: &str) -> (r: String)
    ensures
        r@ == trimmed(s@),
{
    let n: usize = s.unicode_len();
    let mut a: usize = 0;
    while a < n && is_white(s.get_char(a))
        invariant
            a <= n == s@.len(),
            forall|j: int| 0 <= j < a ==> is_space(#[trigger] s@[j]),
        decreases n - a,
    {
        a += 1;
    }
    if a == n {
        return String::new();
    }
    let mut b: usize = n - 1;
    while b > a && is_white(s.get_char(b))
        invariant
            a <= b < n == s@.len(),
            !is_space(s@[a as int]),
            forall|j: int| b < j < n ==> is_space(#[trigger] s@[j]),
        decreases b,
    {
        b -= 1;
    }
    proof {
        assert(first_solid(s@, a as int));
        assert(last_solid(s@, b as int));
        let a2 = choose|a2: int| first_solid(s@, a2);
        let b2 = choose|b2: int| last_solid(s@, b2);
        assert(a2 == a) by {
            if a2 < a {
                assert(is_space(s@[a2]));
            } else if a < a2 {
                assert(is_space(s@[a as int]));
            }
        }
        assert(b2 == b) by {
            if b2 < b {
                assert(is_space(s@[b as int]));
            } else if b < b2 {
                assert(is_space(s@[b2]));
            }
        }
    }
    s.substring_char(a, b + 1).to_owned()
}

/// What `String::from_utf8_lossy` makes of `bytes`: their text, with each
/// stretch that is no UTF-8 replaced by U+FFFD.
pub uninterp spec fn utf8_lossy(bytes: Seq<u8>) -> Seq<char>;

/// The text that bytes are read as: the text that they encode where they are
/// UTF-8, and else what `String::from_utf8_lossy` makes of them.
pub open spec fn decoded(bytes: Seq<u8>) -> Seq<char> {
    if vstd::utf8::valid_utf8(bytes) {
        vstd::utf8::decode_utf8(bytes)
    } else {
        utf8_lossy(bytes)
    }
}

/// Decodes bytes as UTF-8 text with `String::from_utf8_lossy`, which puts
/// U+FFFD in place of what is no UTF-8. The text is a function of the bytes,
/// and on valid UTF-8 it is the text that the bytes encode.
#[verifier::external_body]
pub(crate) fn lossy_text(bytes: &[u8]) -> (text: String)
    ensures
        text@ == utf8_lossy(bytes@),
        text@ == decoded(bytes@),
{
    String::from_utf8_lossy(bytes).into_owned()
}

/// `text` with every occurrence of `pattern` taken out, found from left to
/// right, each one starting behind the one before it.
pub open spec fn without(text: Seq<char>, pattern: Seq<char>) -> Seq<char>
    decreases text.len(),
{
    if pattern.len() == 0 || text.len() < pattern.len() {
        text
    } else if text.take(pattern.len() as int) == pattern {
        without(text.skip(pattern.len() as int), pattern)
    } else {
        seq![text[0]] + without(text.drop_first(), pattern)
    }
}

/// Whether `pattern` stands in `text` at character `at`.
fn stands_at(text: &str, pattern: &str, at: usize, text_len: usize, pattern_len: usize) -> (r: bool)
    requires
        text_len == text@.len(),
        pattern_len == pattern@.len(),
        at + pattern_len <= text_len,
    ensures
        r == (text@.skip(at as int).take(pattern_len as int) == pattern@),
{
    let mut k: usize = 0;
    while k < pattern_len
        invariant
            k <= pattern_len == pattern@.len(),
            text_len == text@.len(),
            at + pattern_len <= text_len,
            forall|j: int| 0 <= j < k ==> text@[at + j] == pattern@[j],
        decreases pattern_len - k,
    {
        if text.get_char(at + k) != pattern.get_char(k) {
            assert(text@.skip(at as int).take(pattern_len as int)[k as int] != pattern@[k as int]);
            return false;
        }
        k += 1;
    }
    assert(text@.skip(at as int).take(pattern_len as int) =~= pattern@);
    true
}

/// Takes every occurrence of `pattern` out of `text`.
pub fn remove_all(text: &str, pattern: &str) -> (r: String)
    ensures
        r@ == without(text@, pattern@),
{
    let n: usize = text.unicode_len();
    let m: usize = pattern.unicode_len();
    if m == 0 || n < m {
        return text.to_owned();
    }
    let mut r = String::new();
    let mut i: usize = 0;
    proof {
        assert(text@.skip(0) =~= text@);
    }
    while i <= n - m
        invariant
            0 < m == pattern@.len(),
            m <= n == text@.len(),
            i <= n,
            without(text@, pattern@) == r@ + without(text@.skip(i as int), pattern@),
        decreases n - i,
    {
        let ghost rest = text@.skip(i as int);
        if stands_at(text, pattern, i, n, m) {
            proof {
                assert(rest.skip(m as int) =~= text@.skip(i + m));
            }
            i += m;
        } else {
            let ghost so_far = r@;
            r.append(text.substring_char(i, i + 1));
            proof {
                assert(text@.subrange(i as int, i + 1) =~= seq![rest[0]]);
                assert(rest.drop_first() =~= text@.skip(i + 1));
                assert(r@ + without(text@.skip(i + 1), pattern@) =~= so_far + (seq![rest[0]]
                    + without(rest.drop_first(), pattern@)));
            }
            i += 1;
        }
    }
    r.append(text.substring_char(i, n));
    proof {
        assert(text@.subrange(i as int, n as int) =~= text@.skip(i as int));
    }
    r
}

/// Whether two texts are the same.
pub fn text_equal(a: &str, b: &str) -> (r: bool)
    ensures
        r == (a@ == b@),
{
    proof {
        vstd::utf8::encode_utf8_decode_utf8(a@);
        vstd::utf8::encode_utf8_decode_utf8(b@);
    }
    bytes_equal(a.as_bytes(), b.as_bytes())
}

/// The character that writes one decimal digit.
pub open spec fn digit(d: int) -> char {
    if d == 0 {
        '0'
    } else if d == 1 {
        '1'
    } else if d == 2 {
        '2'
    } else if d == 3 {
        '3'
    } else if d == 4 {
        '4'
    } else if d == 5 {
        '5'
    } else if d == 6 {
        '6'
    } else if d == 7 {
        '7'
    } else if d == 8 {
        '8'
    } else {
        '9'
    }
}

/// A number written in decimal, without leading zeros.
pub open spec fn decimal(n: nat) -> Seq<char>
    decreases n,
{
    if n < 10 {
        seq![digit(n as int)]
    } else {
        decimal(n / 10).push(digit((n % 10) as int))
    }
}

fn digit_text(d: u64) -> (r: &'static str)
    requires
        d < 10,
    ensures
        r@ == seq![digit(d as int)],
{
    proof {
        reveal_strlit("0");
        reveal_strlit("1");
        reveal_strlit("2");
        reveal_strlit("3");
        reveal_strlit("4");
        reveal_strlit("5");
        reveal_strlit("6");
        reveal_strlit("7");
        reveal_strlit("8");
        reveal_strlit("9");
    }
    let r = if d == 0 {
        "0"
    } else if d == 1 {
        "1"
    } else if d == 2 {
        "2"
    } else if d == 3 {
        "3"
    } else if d == 4 {
        "4"
    } else if d == 5 {
        "5"
    } else if d == 6 {
        "6"
    } else if d == 7 {
        "7"
    } else if d == 8 {
        "8"
    } else {
        "9"
    };
    assert(r@ =~= seq![digit(d as int)]);
    r
}

/// Writes a number in decimal.
pub fn decimal_text(n: u64) -> (r: String)
    ensures
        r@ == decimal(n as nat),
    decreases n,
{
    if n < 10 {
        digit_text(n).to_owned()
    } else {
        let mut r = decimal_text(n / 10);
        r.append(digit_text(n % 10));
        assert(r@ =~= decimal((n / 10) as nat).push(digit((n % 10) as int)));
        r
    }
}

} // verus!
