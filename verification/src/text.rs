//! Character-level string helpers that the brace lint is built from:
//! Unicode whitespace, trimming, prefix stripping and splitting at a
//! character, each stated over the `Seq<char>` view of a string.
use vstd::prelude::*;

verus! {

/// The Unicode `White_Space` property (PropList.txt), which is what
/// `char::is_whitespace`, `str::trim` and `str::trim_start` go by.
pub open spec fn is_white_space(c: char) -> bool {
    ||| ('\u{9}' <= c && c <= '\u{d}')
    ||| c == ' '
    ||| c == '\u{85}'
    ||| c == '\u{a0}'
    ||| c == '\u{1680}'
    ||| ('\u{2000}' <= c && c <= '\u{200a}')
    ||| c == '\u{2028}'
    ||| c == '\u{2029}'
    ||| c == '\u{202f}'
    ||| c == '\u{205f}'
    ||| c == '\u{3000}'
}

/// Index of the first character at or after `i` that is not whitespace
/// (the length of `s` if there is none).
pub open spec fn skip_white_space(s: Seq<char>, i: int) -> int
    decreases s.len() - i,
{
    if 0 <= i < s.len() && is_white_space(s[i]) {
        skip_white_space(s, i + 1)
    } else {
        i
    }
}

/// Length of the prefix `s.take(n)` once trailing whitespace is dropped.
pub open spec fn trailing_white_space_start(s: Seq<char>, n: int) -> int
    decreases n,
{
    if 0 < n <= s.len() && is_white_space(s[n - 1]) {
        trailing_white_space_start(s, n - 1)
    } else {
        n
    }
}

/// `s` without its leading whitespace, as `str::trim_start` returns it.
pub open spec fn trim_start_seq(s: Seq<char>) -> Seq<char> {
    s.skip(skip_white_space(s, 0))
}

/// `s` without its trailing whitespace.
pub open spec fn trim_end_seq(s: Seq<char>) -> Seq<char> {
    s.take(trailing_white_space_start(s, s.len() as int))
}

/// `s` without leading and trailing whitespace, as `str::trim` returns it.
pub open spec fn trim_seq(s: Seq<char>) -> Seq<char> {
    trim_end_seq(trim_start_seq(s))
}

/// Whether `s` starts with `prefix`.
pub open spec fn has_prefix(s: Seq<char>, prefix: Seq<char>) -> bool {
    prefix.len() <= s.len() && s.take(prefix.len() as int) == prefix
}

/// What `str::strip_prefix` returns: the rest of `s` after `prefix`, if
/// `s` starts with it.
pub open spec fn strip_prefix_seq(s: Seq<char>, prefix: Seq<char>) -> Option<Seq<char>> {
    if has_prefix(s, prefix) {
        Some(s.skip(prefix.len() as int))
    } else {
        None
    }
}

/// Index of the first occurrence of `c` in `s` at or after `i`.
pub open spec fn find_char_from(s: Seq<char>, c: char, i: int) -> Option<int>
    decreases s.len() - i,
{
    if i < 0 || i >= s.len() {
        None
    } else if s[i] == c {
        Some(i)
    } else {
        find_char_from(s, c, i + 1)
    }
}

/// What `str::split_once` with a `char` pattern returns: the parts of `s`
/// before and after the first occurrence of `c`.
pub open spec fn split_once_seq(s: Seq<char>, c: char) -> Option<(Seq<char>, Seq<char>)> {
    match find_char_from(s, c, 0) {
        Some(i) => Some((s.take(i), s.skip(i + 1))),
        None => None,
    }
}

/// The first `c` at or after `i` is at `k` when `s[k]` is `c` and no
/// character from `i` up to `k` is.
pub proof fn lemma_find_char_at(s: Seq<char>, c: char, i: int, k: int)
    requires
        0 <= i <= k < s.len(),
        s[k] == c,
        forall|j: int| i <= j < k ==> s[j] != c,
    ensures
        find_char_from(s, c, i) == Some(k),
    decreases k - i,
{
    if i < k {
        lemma_find_char_at(s, c, i + 1, k);
    }
}

/// Whether `c` is whitespace in the sense of `char::is_whitespace`.
pub fn is_whitespace(c: char) -> (res: bool)
    ensures
        res == is_white_space(c),
{
    ('\u{9}' <= c && c <= '\u{d}') || c == ' ' || c == '\u{85}' || c == '\u{a0}' || c
        == '\u{1680}' || ('\u{2000}' <= c && c <= '\u{200a}') || c == '\u{2028}' || c
        == '\u{2029}' || c == '\u{202f}' || c == '\u{205f}' || c == '\u{3000}'
}

/// `s` with its leading whitespace removed, as `str::trim_start` does.
pub fn trim_start(s: &str) -> (res: &str)
    ensures
        res@ == trim_start_seq(s@),
{
    let len = s.unicode_len();
    let mut i: usize = 0;
    while i < len && is_whitespace(s.get_char(i))
        invariant
            len == s@.len(),
            i <= len,
            skip_white_space(s@, i as int) == skip_white_space(s@, 0),
        decreases len - i,
    {
        i = i + 1;
    }
    s.substring_char(i, len)
}

/// `s` with its trailing whitespace removed, as `str::trim_end` does.
pub fn trim_end(s: &str) -> (res: &str)
    ensures
        res@ == trim_end_seq(s@),
{
    let len = s.unicode_len();
    let mut n: usize = len;
    while n > 0 && is_whitespace(s.get_char(n - 1))
        invariant
            len == s@.len(),
            n <= len,
            trailing_white_space_start(s@, n as int) == trailing_white_space_start(
                s@,
                len as int,
            ),
        decreases n,
    {
        n = n - 1;
    }
    s.substring_char(0, n)
}

/// `s` with leading and trailing whitespace removed, as `str::trim` does.
pub fn trim(s: &str) -> (res: &str)
    ensures
        res@ == trim_seq(s@),
{
    trim_end(trim_start(s))
}

/// The rest of `s` after `prefix`, if `s` starts with it, as
/// `str::strip_prefix` returns it for a string pattern.
pub fn strip_prefix<'a>(s: &'a str, prefix: &str) -> (res: Option<&'a str>)
    ensures
        res matches Some(r) ==> strip_prefix_seq(s@, prefix@) == Some(r@),
        res is None ==> strip_prefix_seq(s@, prefix@) is None,
{
    let len = s.unicode_len();
    let plen = prefix.unicode_len();
    if plen > len {
        return None;
    }
    let mut i: usize = 0;
    while i < plen
        invariant
            len == s@.len(),
            plen == prefix@.len(),
            plen <= len,
            i <= plen,
            forall|j: int| 0 <= j < i ==> s@[j] == prefix@[j],
        decreases plen - i,
    {
        if s.get_char(i) != prefix.get_char(i) {
            assert(s@.take(plen as int)[i as int] != prefix@[i as int]);
            return None;
        }
        i = i + 1;
    }
    assert(s@.take(plen as int) =~= prefix@);
    Some(s.substring_char(plen, len))
}

/// The rest of `s` after its first character, if that character is `c`,
/// as `str::strip_prefix` returns it for a `char` pattern.
pub fn strip_prefix_char(s: &str, c: char) -> (res: Option<&str>)
    ensures
        res matches Some(r) ==> strip_prefix_seq(s@, seq![c]) == Some(r@),
        res is None ==> strip_prefix_seq(s@, seq![c]) is None,
{
    let len = s.unicode_len();
    if len > 0 && s.get_char(0) == c {
        assert(s@.take(1) =~= seq![c]);
        Some(s.substring_char(1, len))
    } else {
        proof {
            if len > 0 {
                assert(s@.take(1)[0] != seq![c][0]);
            }
        }
        None
    }
}

/// The parts of `s` before and after the first `c`, as `str::split_once`
/// returns them for a `char` pattern.
pub fn split_once_char(s: &str, c: char) -> (res: Option<(&str, &str)>)
    ensures
        res matches Some((a, b)) ==> split_once_seq(s@, c) == Some((a@, b@)),
        res is None ==> split_once_seq(s@, c) is None,
{
    let len = s.unicode_len();
    let mut i: usize = 0;
    while i < len
        invariant
            len == s@.len(),
            i <= len,
            find_char_from(s@, c, i as int) == find_char_from(s@, c, 0),
        decreases len - i,
    {
        if s.get_char(i) == c {
            return Some((s.substring_char(0, i), s.substring_char(i + 1, len)));
        }
        i = i + 1;
    }
    None
}

/// The first character of `s`, as `s.chars().next()` yields it.
pub fn first_char(s: &str) -> (res: Option<char>)
    ensures
        res == (if s@.len() > 0 {
            Some(s@[0])
        } else {
            None::<char>
        }),
{
    if s.unicode_len() > 0 {
        Some(s.get_char(0))
    } else {
        None
    }
}

/// Whether `a` and `b` hold the same characters.
pub fn same_text(a: &str, b: &str) -> (res: bool)
    ensures
        res == (a@ == b@),
{
    let alen = a.unicode_len();
    let blen = b.unicode_len();
    if alen != blen {
        return false;
    }
    let mut i: usize = 0;
    while i < alen
        invariant
            alen == a@.len(),
            blen == b@.len(),
            alen == blen,
            i <= alen,
            forall|j: int| 0 <= j < i ==> a@[j] == b@[j],
        decreases alen - i,
    {
        if a.get_char(i) != b.get_char(i) {
            return false;
        }
        i = i + 1;
    }
    assert(a@ =~= b@);
    true
}

/// Appends `c` to `s`.
///
/// Trusted: calls `String::push`, which std documents as appending the
/// given `char` to the end of the string; the contract says exactly that.
#[verifier::external_body]
pub(crate) fn push_char(s: &mut String, c: char)
    ensures
        final(s)@ == old(s)@.push(c),
{
    s.push(c);
}

} // verus!
