//! Character-level helpers shared by the parsers.

use vstd::prelude::*;

verus! {

/// Unicode `White_Space`, the property that `char::is_whitespace` tests.
pub open spec fn is_ws(c: char) -> bool {
    ||| ('\u{9}' <= c && c <= '\u{d}')
    ||| c == ' '
    ||| c == '\u{85}'
    ||| c == '\u{a0}'
    ||| c == '\u{1680}'
    ||| ('\u{2000}' <= c && c <= '\u{200a}')
    ||| c == '\u{2028}'
    ||| c == '\u{2029}'
    ||| c == '\u{202f}'
    ||| c == '\u{205f}'
    ||| c == '\u{3000}'
}

pub fn is_whitespace(c: char) -> (b: bool)
    ensures
        b == is_ws(c),
{
    ('\u{9}' <= c && c <= '\u{d}') || c == ' ' || c == '\u{85}' || c == '\u{a0}' || c == '\u{1680}'
        || ('\u{2000}' <= c && c <= '\u{200a}') || c == '\u{2028}' || c == '\u{2029}' || c
        == '\u{202f}' || c == '\u{205f}' || c == '\u{3000}'
}

/// The characters of a string slice, in order.
pub fn str_to_chars(s: &str) -> (v: Vec<char>)
    ensures
        v@ == s@,
{
    let mut v: Vec<char> = Vec::new();
    for c in iter: s.chars()
        invariant
            v@ == iter.seq().take(iter.index() as int),
            iter.seq() == s@,
    {
        v.push(c);
    }
    v
}

} // verus!

verus! {

/// The index of the first non-whitespace character at or after `i`
/// (the length of `s` when there is none).
pub open spec fn skip_ws(s: Seq<char>, i: int) -> int
    decreases s.len() - i,
{
    if i >= s.len() {
        s.len() as int
    } else if is_ws(s[i]) {
        skip_ws(s, i + 1)
    } else {
        i
    }
}

/// The index of the first whitespace character at or after `i`
/// (the length of `s` when there is none).
pub open spec fn word_end(s: Seq<char>, i: int) -> int
    decreases s.len() - i,
{
    if i >= s.len() {
        s.len() as int
    } else if is_ws(s[i]) {
        i
    } else {
        word_end(s, i + 1)
    }
}

/// The end of `s[..j]` once trailing whitespace is dropped.
pub open spec fn trim_end_at(s: Seq<char>, j: int) -> int
    decreases j,
{
    if j <= 0 {
        0
    } else if is_ws(s[j - 1]) {
        trim_end_at(s, j - 1)
    } else {
        j
    }
}

/// `str::trim`: `s` without its leading and trailing whitespace.
pub open spec fn trim_spec(s: Seq<char>) -> Seq<char> {
    let a = skip_ws(s, 0);
    let b = trim_end_at(s, s.len() as int);
    if a < b {
        s.subrange(a, b)
    } else {
        Seq::empty()
    }
}

pub proof fn lemma_skip_ws_bounds(s: Seq<char>, i: int)
    requires
        0 <= i,
    ensures
        i <= skip_ws(s, i) || i > s.len(),
        skip_ws(s, i) <= s.len(),
        skip_ws(s, i) < s.len() ==> !is_ws(s[skip_ws(s, i)]),
        forall|k: int| i <= k < skip_ws(s, i) ==> is_ws(#[trigger] s[k]),
    decreases s.len() - i,
{
    if i < s.len() && is_ws(s[i]) {
        lemma_skip_ws_bounds(s, i + 1);
    }
}

pub proof fn lemma_word_end_bounds(s: Seq<char>, i: int)
    requires
        0 <= i <= s.len(),
    ensures
        i <= word_end(s, i) <= s.len(),
        word_end(s, i) < s.len() ==> is_ws(s[word_end(s, i)]),
        forall|k: int| i <= k < word_end(s, i) ==> !is_ws(#[trigger] s[k]),
    decreases s.len() - i,
{
    if i < s.len() && !is_ws(s[i]) {
        lemma_word_end_bounds(s, i + 1);
    }
}

pub proof fn lemma_trim_end_bounds(s: Seq<char>, j: int)
    requires
        0 <= j <= s.len(),
    ensures
        0 <= trim_end_at(s, j) <= j,
        trim_end_at(s, j) > 0 ==> !is_ws(s[trim_end_at(s, j) - 1]),
        forall|k: int| trim_end_at(s, j) <= k < j ==> is_ws(#[trigger] s[k]),
    decreases j,
{
    if j > 0 && is_ws(s[j - 1]) {
        lemma_trim_end_bounds(s, j - 1);
    }
}

/// Trimming removes exactly the leading and the trailing whitespace: what
/// is left is a stretch of `s` with only whitespace before and after it, and
/// it neither starts nor ends with whitespace.
pub proof fn lemma_trim_strips_whitespace(s: Seq<char>)
    ensures
        exists|a: int, b: int|
            0 <= a <= b <= s.len() && trim_spec(s) == s.subrange(a, b) && (forall|k: int|
                0 <= k < a ==> is_ws(#[trigger] s[k])) && (forall|k: int|
                b <= k < s.len() ==> is_ws(#[trigger] s[k])),
        trim_spec(s).len() > 0 ==> !is_ws(trim_spec(s)[0]) && !is_ws(
            trim_spec(s)[trim_spec(s).len() - 1],
        ),
{
    lemma_skip_ws_bounds(s, 0);
    lemma_trim_end_bounds(s, s.len() as int);
    let a = skip_ws(s, 0);
    let b = trim_end_at(s, s.len() as int);
    if a < b {
        assert(trim_spec(s) == s.subrange(a, b));
        assert(trim_spec(s)[0] == s[a]);
        assert(trim_spec(s)[trim_spec(s).len() - 1] == s[b - 1]);
    } else {
        assert(trim_spec(s) =~= s.subrange(a, a));
        assert forall|k: int| a <= k < s.len() implies is_ws(#[trigger] s[k]) by {
            if k < b {
                assert(false);
            }
        }
    }
}

/// `str::split_whitespace`: the maximal runs of non-whitespace characters
/// of `s[i..]`, in order.
pub open spec fn words_from(s: Seq<char>, i: int) -> Seq<Seq<char>>
    decreases s.len() - i,
{
    if i < 0 || i >= s.len() {
        Seq::empty()
    } else {
        let a = skip_ws(s, i);
        if a >= s.len() {
            Seq::empty()
        } else {
            let b = word_end(s, a);
            proof {
                lemma_skip_ws_bounds(s, i);
                lemma_word_end_bounds(s, a);
                assert(word_end(s, a) == word_end(s, a + 1));
                lemma_word_end_bounds(s, a + 1);
            }
            seq![s.subrange(a, b)] + words_from(s, b)
        }
    }
}

pub open spec fn words(s: Seq<char>) -> Seq<Seq<char>> {
    words_from(s, 0)
}

/// The words of a text are runs of it that are not empty and hold no
/// whitespace.
pub proof fn lemma_words_are_nonblank_runs(s: Seq<char>, i: int)
    requires
        0 <= i,
    ensures
        forall|w: int| 0 <= w < words_from(s, i).len() ==> (#[trigger] words_from(s, i)[w]).len() > 0,
        forall|w: int, k: int|
            0 <= w < words_from(s, i).len() && 0 <= k < words_from(s, i)[w].len() ==> !is_ws(
                #[trigger] words_from(s, i)[w][k],
            ),
    decreases s.len() - i,
{
    if i < s.len() {
        let a = skip_ws(s, i);
        lemma_skip_ws_bounds(s, i);
        if a < s.len() {
            let b = word_end(s, a);
            lemma_word_end_bounds(s, a);
            assert(word_end(s, a) == word_end(s, a + 1));
            lemma_word_end_bounds(s, a + 1);
            lemma_words_are_nonblank_runs(s, b);
            let ws = words_from(s, i);
            let rest = words_from(s, b);
            assert(ws == seq![s.subrange(a, b)] + rest);
            assert forall|w: int, k: int| 0 <= w < ws.len() && 0 <= k < ws[w].len() implies !is_ws(
                #[trigger] ws[w][k],
            ) by {
                if w == 0 {
                    assert(ws[0][k] == s[a + k]);
                } else {
                    assert(ws[w] == rest[w - 1]);
                }
            }
            assert forall|w: int| 0 <= w < ws.len() implies (#[trigger] ws[w]).len() > 0 by {
                if w > 0 {
                    assert(ws[w] == rest[w - 1]);
                }
            }
        }
    }
}

/// The characters `s[a..b]`.
pub fn sub_chars(s: &[char], a: usize, b: usize) -> (r: Vec<char>)
    requires
        a <= b <= s@.len(),
    ensures
        r@ == s@.subrange(a as int, b as int),
{
    let mut r: Vec<char> = Vec::new();
    let mut i = a;
    while i < b
        invariant
            a <= i <= b <= s@.len(),
            r@ == s@.subrange(a as int, i as int),
        decreases b - i,
    {
        r.push(s[i]);
        i = i + 1;
    }
    r
}

/// `str::trim` on a character vector.
pub fn trim_chars(s: &Vec<char>) -> (r: Vec<char>)
    ensures
        r@ == trim_spec(s@),
{
    let n = s.len();
    let mut a: usize = 0;
    while a < n && is_whitespace(s[a])
        invariant
            a <= n == s@.len(),
            skip_ws(s@, 0) == skip_ws(s@, a as int),
        decreases n - a,
    {
        a = a + 1;
    }
    let mut b: usize = n;
    while b > 0 && is_whitespace(s[b - 1])
        invariant
            b <= n == s@.len(),
            trim_end_at(s@, n as int) == trim_end_at(s@, b as int),
        decreases b,
    {
        b = b - 1;
    }
    if a < b {
        sub_chars(s, a, b)
    } else {
        Vec::new()
    }
}

/// `str::split_whitespace`, collected.
pub fn split_whitespace(s: &Vec<char>) -> (r: Vec<Vec<char>>)
    ensures
        r@.map_values(|w: Vec<char>| w@) == words(s@),
{
    let n = s.len();
    let mut r: Vec<Vec<char>> = Vec::new();
    let mut i: usize = 0;
    while i < n
        invariant
            i <= n == s@.len(),
            r@.map_values(|w: Vec<char>| w@) + words_from(s@, i as int) == words(s@),
        decreases n - i,
    {
        let ghost i0 = i as int;
        let mut a = i;
        while a < n && is_whitespace(s[a])
            invariant
                i <= a <= n == s@.len(),
                skip_ws(s@, i as int) == skip_ws(s@, a as int),
            decreases n - a,
        {
            a = a + 1;
        }
        if a >= n {
            assert(words_from(s@, i0) == Seq::<Seq<char>>::empty());
            i = n;
        } else {
            let mut b = a;
            while b < n && !is_whitespace(s[b])
                invariant
                    a <= b <= n == s@.len(),
                    word_end(s@, a as int) == word_end(s@, b as int),
                decreases n - b,
            {
                b = b + 1;
            }
            let w = sub_chars(s, a, b);
            let ghost old_r = r@;
            r.push(w);
            assert(words_from(s@, i0) == seq![s@.subrange(a as int, b as int)] + words_from(
                s@,
                b as int,
            ));
            assert(r@.map_values(|w: Vec<char>| w@) == old_r.map_values(|w: Vec<char>| w@).push(
                s@.subrange(a as int, b as int),
            ));
            i = b;
        }
    }
    assert(words_from(s@, n as int) == Seq::<Seq<char>>::empty());
    r
}

/// Builds a `String` from characters, through std's `FromIterator<&char>`
/// for `String`, which appends the characters in order.
#[verifier::external_body]
pub(crate) fn string_from_chars(v: &[char]) -> (s: String)
    ensures
        s@ == v@,
{
    v.iter().collect()
}

/// Whether two character sequences are equal.
pub fn chars_eq(a: &[char], b: &[char]) -> (r: bool)
    ensures
        r == (a@ == b@),
{
    if a.len() != b.len() {
        return false;
    }
    let mut i: usize = 0;
    while i < a.len()
        invariant
            i <= a@.len() == b@.len(),
            forall|k: int| 0 <= k < i ==> a@[k] == b@[k],
        decreases a.len() - i,
    {
        if a[i] != b[i] {
            return false;
        }
        i = i + 1;
    }
    assert(a@ =~= b@);
    true
}

/// Whether `a` equals the string `lit`.
pub fn chars_eq_str(a: &[char], lit: &str) -> (r: bool)
    ensures
        r == (a@ == lit@),
{
    let b = str_to_chars(lit);
    chars_eq(a, b.as_slice())
}

/// What `char::to_lowercase` gives for the characters whose lowercase form
/// is ASCII: `A`..`Z` and the Kelvin sign; every other character is kept.
/// No other character lowers to a single ASCII character, so two strings
/// whose lowercase forms are equal to an ASCII string agree on this fold.
pub open spec fn fold_char(c: char) -> char {
    if 'A' <= c && c <= 'Z' {
        ((c as u32) + 32) as char
    } else if c == '\u{212a}' {
        'k'
    } else {
        c
    }
}

pub fn fold_char_exec(c: char) -> (r: char)
    ensures
        r == fold_char(c),
{
    if 'A' <= c && c <= 'Z' {
        (((c as u32) + 32) as u8) as char
    } else if c == '\u{212a}' {
        'k'
    } else {
        c
    }
}

/// `s.to_lowercase() == lit` for a lowercase ASCII string `lit`.
pub open spec fn lower_eq(s: Seq<char>, lit: Seq<char>) -> bool {
    s.len() == lit.len() && forall|k: int| 0 <= k < s.len() ==> fold_char(#[trigger] s[k]) == lit[k]
}

pub fn lower_eq_str(s: &[char], lit: &str) -> (r: bool)
    ensures
        r == lower_eq(s@, lit@),
{
    let b = str_to_chars(lit);
    if s.len() != b.len() {
        return false;
    }
    let mut i: usize = 0;
    while i < s.len()
        invariant
            i <= s@.len() == b@.len(),
            b@ == lit@,
            forall|k: int| 0 <= k < i ==> fold_char(#[trigger] s@[k]) == b@[k],
        decreases s.len() - i,
    {
        if fold_char_exec(s[i]) != b[i] {
            return false;
        }
        i = i + 1;
    }
    true
}

pub open spec fn is_digit(c: char) -> bool {
    '0' <= c && c <= '9'
}

pub open spec fn digit_of(c: char) -> nat {
    ((c as u32) - ('0' as u32)) as nat
}

/// The number written by the decimal digits `s` (0 for the empty sequence).
pub open spec fn digits_value(s: Seq<char>) -> nat
    decreases s.len(),
{
    if s.len() == 0 {
        0
    } else {
        digits_value(s.drop_last()) * 10 + digit_of(s.last())
    }
}

pub open spec fn all_digits(s: Seq<char>) -> bool {
    forall|k: int| 0 <= k < s.len() ==> is_digit(#[trigger] s[k])
}

/// `u64::from_str`: an optional `+`, then one or more decimal digits whose
/// value fits in a `u64`.
pub open spec fn parse_u64_spec(s: Seq<char>) -> Option<u64> {
    let d = if s.len() > 0 && s[0] == '+' {
        s.drop_first()
    } else {
        s
    };
    if d.len() > 0 && all_digits(d) && digits_value(d) <= u64::MAX {
        Some(digits_value(d) as u64)
    } else {
        None
    }
}

pub fn parse_u64(s: &[char]) -> (r: Option<u64>)
    ensures
        r == parse_u64_spec(s@),
{
    let start: usize = if s.len() > 0 && s[0] == '+' {
        1
    } else {
        0
    };
    let ghost d = if s@.len() > 0 && s@[0] == '+' {
        s@.drop_first()
    } else {
        s@
    };
    assert(d == s@.subrange(start as int, s@.len() as int));
    if start >= s.len() {
        return None;
    }
    let mut acc: u64 = 0;
    let mut i = start;
    while i < s.len()
        invariant
            start <= i <= s@.len(),
            d == s@.subrange(start as int, s@.len() as int),
            d.len() > 0,
            parse_u64_spec(s@) == (if all_digits(d) && digits_value(d) <= u64::MAX {
                Some(digits_value(d) as u64)
            } else {
                None
            }),
            all_digits(s@.subrange(start as int, i as int)),
            acc == digits_value(s@.subrange(start as int, i as int)),
        decreases s.len() - i,
    {
        let c = s[i];
        assert(s@.subrange(start as int, i + 1).drop_last() == s@.subrange(start as int, i as int));
        if !('0' <= c && c <= '9') {
            assert(!all_digits(d)) by {
                assert(d[i - start] == c);
            }
            return None;
        }
        let dv = (c as u32 - '0' as u32) as u64;
        if acc > (u64::MAX - dv) / 10 {
            assert(digits_value(s@.subrange(start as int, i + 1)) == acc * 10 + dv);
            assert(digits_value(d) >= digits_value(s@.subrange(start as int, i + 1))) by {
                lemma_digits_value_prefix(d, i + 1 - start);
                assert(d.subrange(0, i + 1 - start) == s@.subrange(start as int, i + 1));
            }
            return None;
        }
        acc = acc * 10 + dv;
        i = i + 1;
    }
    assert(s@.subrange(start as int, i as int) == d);
    Some(acc)
}

/// A prefix of a digit string never writes a larger number.
pub proof fn lemma_digits_value_prefix(s: Seq<char>, j: int)
    requires
        0 <= j <= s.len(),
    ensures
        digits_value(s.subrange(0, j)) <= digits_value(s),
    decreases s.len() - j,
{
    if j < s.len() {
        lemma_digits_value_prefix(s, j + 1);
        assert(s.subrange(0, j + 1).drop_last() == s.subrange(0, j));
    } else {
        assert(s.subrange(0, j) == s);
    }
}

/// The decimal representation of `n`, as `u64::to_string` writes it.
pub open spec fn nat_to_digits(n: nat) -> Seq<char>
    decreases n,
{
    if n < 10 {
        seq![((n + 48) as u32) as char]
    } else {
        nat_to_digits(n / 10).push((((n % 10) + 48) as u32) as char)
    }
}

pub fn u64_to_chars(n: u64) -> (r: Vec<char>)
    ensures
        r@ == nat_to_digits(n as nat),
    decreases n,
{
    if n < 10 {
        let mut r: Vec<char> = Vec::new();
        r.push(((n as u8) + 48) as char);
        r
    } else {
        let mut r = u64_to_chars(n / 10);
        r.push((((n % 10) as u8) + 48) as char);
        r
    }
}

/// `Path::join` on Unix for paths given as text: an absolute `rel` replaces
/// `base`; otherwise `rel` is appended after a `/` unless `base` is empty or
/// already ends with one.
pub open spec fn join_path_spec(base: Seq<char>, rel: Seq<char>) -> Seq<char> {
    if rel.len() > 0 && rel[0] == '/' {
        rel
    } else if base.len() == 0 || base.last() == '/' {
        base + rel
    } else {
        base + seq!['/'] + rel
    }
}

pub fn join_path(base: &[char], rel: &[char]) -> (r: Vec<char>)
    ensures
        r@ == join_path_spec(base@, rel@),
{
    let mut r: Vec<char> = Vec::new();
    if rel.len() > 0 && rel[0] == '/' {
        append_chars(&mut r, rel);
        return r;
    }
    append_chars(&mut r, base);
    if base.len() > 0 && base[base.len() - 1] != '/' {
        r.push('/');
    }
    append_chars(&mut r, rel);
    r
}

/// Appends the characters of `s` to `r`.
pub fn append_chars(r: &mut Vec<char>, s: &[char])
    ensures
        final(r)@ == old(r)@ + s@,
{
    let mut i: usize = 0;
    let ghost r0 = r@;
    while i < s.len()
        invariant
            i <= s@.len(),
            r@ == r0 + s@.subrange(0, i as int),
        decreases s.len() - i,
    {
        r.push(s[i]);
        i = i + 1;
    }
    assert(s@.subrange(0, s@.len() as int) == s@);
}

} // verus!
