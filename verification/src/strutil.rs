//! Verified string utilities: whitespace classification, leading-space
//! counting, trimming, substring containment and occurrence removal.
//!
//! All executable functions here are specified against recursive spec
//! functions over `Seq<char>`, the view of `str` and `String`.

use vstd::prelude::*;
use vstd::string::*;

verus! {

/// The Unicode whitespace property, as character trimming understands it.
pub open spec fn is_ws_char(c: char) -> bool {
    let u = c as u32;
    u == 0x09 || u == 0x0A || u == 0x0B || u == 0x0C || u == 0x0D || u == 0x20 || u == 0x85
        || u == 0xA0 || u == 0x1680 || (0x2000 <= u && u <= 0x200A) || u == 0x2028 || u == 0x2029
        || u == 0x202F || u == 0x205F || u == 0x3000
}

/// Executable test for [`is_ws_char`].
pub fn ws_char(c: char) -> (r: bool)
    ensures
        r == is_ws_char(c),
{
    let u = c as u32;
    u == 0x09 || u == 0x0A || u == 0x0B || u == 0x0C || u == 0x0D || u == 0x20 || u == 0x85
        || u == 0xA0 || u == 0x1680 || (0x2000 <= u && u <= 0x200A) || u == 0x2028 || u == 0x2029
        || u == 0x202F || u == 0x205F || u == 0x3000
}

/// Number of leading space characters (`' '` only) of a line.
pub open spec fn leading_spaces(s: Seq<char>) -> nat
    decreases s.len(),
{
    if s.len() == 0 || s[0] != ' ' {
        0
    } else {
        1 + leading_spaces(s.drop_first())
    }
}

pub proof fn lemma_leading_spaces_bound(s: Seq<char>)
    ensures
        leading_spaces(s) <= s.len(),
        forall|j: int| 0 <= j < leading_spaces(s) ==> s[j] == ' ',
        leading_spaces(s) < s.len() ==> s[leading_spaces(s) as int] != ' ',
    decreases s.len(),
{
    if s.len() == 0 || s[0] != ' ' {
    } else {
        lemma_leading_spaces_bound(s.drop_first());
        assert forall|j: int| 0 <= j < leading_spaces(s) implies s[j] == ' ' by {
            if j > 0 {
                assert(s.drop_first()[j - 1] == s[j]);
            }
        }
    }
}

/// A prefix of `k` spaces followed by a non-space (or the end) pins
/// [`leading_spaces`] down to exactly `k`.
pub proof fn lemma_leading_spaces_exact(s: Seq<char>, k: nat)
    requires
        k <= s.len(),
        forall|j: int| 0 <= j < k ==> s[j] == ' ',
        k < s.len() ==> s[k as int] != ' ',
    ensures
        leading_spaces(s) == k,
    decreases s.len(),
{
    if k == 0 {
    } else {
        assert(s[0] == ' ');
        lemma_leading_spaces_exact(s.drop_first(), (k - 1) as nat);
    }
}

/// Counts the leading space characters of a string.
pub fn count_leading_spaces(s: &str) -> (k: usize)
    ensures
        k == leading_spaces(s@),
{
    let n = s.unicode_len();
    let mut k: usize = 0;
    while k < n && s.get_char(k) == ' '
        invariant
            0 <= k <= n == s@.len(),
            forall|j: int| 0 <= j < k ==> s@[j] == ' ',
        decreases n - k,
    {
        k = k + 1;
    }
    proof {
        lemma_leading_spaces_exact(s@, k as nat);
    }
    k
}

/// A set of characters that one of the trimming passes removes.
pub enum CharSet {
    /// Unicode whitespace, as [`is_ws_char`] defines it.
    Whitespace,
    /// The double-quote character.
    DoubleQuote,
    /// Either parenthesis.
    Paren,
    /// The path separator `'/'`.
    Slash,
}

pub open spec fn in_char_set(cs: CharSet, c: char) -> bool {
    match cs {
        CharSet::Whitespace => is_ws_char(c),
        CharSet::DoubleQuote => c == '"',
        CharSet::Paren => c == '(' || c == ')',
        CharSet::Slash => c == '/',
    }
}

/// Executable test for [`in_char_set`].
pub fn char_in_set(cs: &CharSet, c: char) -> (r: bool)
    ensures
        r == in_char_set(*cs, c),
{
    match cs {
        CharSet::Whitespace => ws_char(c),
        CharSet::DoubleQuote => c == '"',
        CharSet::Paren => c == '(' || c == ')',
        CharSet::Slash => c == '/',
    }
}

/// `s` without its longest prefix of characters of the set `cs`.
pub open spec fn trim_start_cs(s: Seq<char>, cs: CharSet) -> Seq<char>
    decreases s.len(),
{
    if s.len() > 0 && in_char_set(cs, s[0]) {
        trim_start_cs(s.drop_first(), cs)
    } else {
        s
    }
}

/// `s` without its longest suffix of characters of the set `cs`.
pub open spec fn trim_end_cs(s: Seq<char>, cs: CharSet) -> Seq<char>
    decreases s.len(),
{
    if s.len() > 0 && in_char_set(cs, s.last()) {
        trim_end_cs(s.drop_last(), cs)
    } else {
        s
    }
}

/// `s` trimmed on both ends by the set `cs`.
pub open spec fn trim_cs(s: Seq<char>, cs: CharSet) -> Seq<char> {
    trim_start_cs(trim_end_cs(s, cs), cs)
}

pub proof fn lemma_trim_start_cs_exact(s: Seq<char>, cs: CharSet, a: nat)
    requires
        a <= s.len(),
        forall|j: int| 0 <= j < a ==> in_char_set(cs, #[trigger] s[j]),
        a < s.len() ==> !in_char_set(cs, s[a as int]),
    ensures
        trim_start_cs(s, cs) == s.skip(a as int),
    decreases s.len(),
{
    if a == 0 {
        assert(s.skip(0) =~= s);
    } else {
        assert(in_char_set(cs, s[0]));
        lemma_trim_start_cs_exact(s.drop_first(), cs, (a - 1) as nat);
        assert(s.drop_first().skip(a as int - 1) =~= s.skip(a as int));
    }
}

pub proof fn lemma_trim_end_cs_exact(s: Seq<char>, cs: CharSet, b: nat)
    requires
        b <= s.len(),
        forall|j: int| b <= j < s.len() ==> in_char_set(cs, #[trigger] s[j]),
        b > 0 ==> !in_char_set(cs, s[b as int - 1]),
    ensures
        trim_end_cs(s, cs) == s.take(b as int),
    decreases s.len(),
{
    if b == s.len() {
        assert(s.take(b as int) =~= s);
        if s.len() > 0 {
            assert(!in_char_set(cs, s.last()));
        }
    } else {
        assert(in_char_set(cs, s.last()));
        lemma_trim_end_cs_exact(s.drop_last(), cs, b);
        assert(s.drop_last().take(b as int) =~= s.take(b as int));
    }
}

/// A line with its trailing whitespace removed.
pub open spec fn trim_end_spec(s: Seq<char>) -> Seq<char> {
    trim_end_cs(s, CharSet::Whitespace)
}

/// Removes trailing whitespace from a string.
pub fn trim_trailing(s: &str) -> (r: String)
    ensures
        r@ == trim_end_spec(s@),
{
    let n = s.unicode_len();
    let mut b: usize = n;
    while b > 0 && ws_char(s.get_char(b - 1))
        invariant
            0 <= b <= n == s@.len(),
            forall|j: int| b <= j < n ==> in_char_set(CharSet::Whitespace, #[trigger] s@[j]),
        decreases b,
    {
        b = b - 1;
    }
    proof {
        lemma_trim_end_cs_exact(s@, CharSet::Whitespace, b as nat);
        assert(s@.take(b as int) == s@.subrange(0, b as int));
    }
    String::from_str(s.substring_char(0, b))
}

/// Removes from both ends of `s` every character of the set `cs`.
pub fn trim_chars(s: &str, cs: &CharSet) -> (r: String)
    ensures
        r@ == trim_cs(s@, *cs),
{
    let n = s.unicode_len();
    let mut b: usize = n;
    while b > 0 && char_in_set(cs, s.get_char(b - 1))
        invariant
            0 <= b <= n == s@.len(),
            forall|j: int| b <= j < n ==> in_char_set(*cs, #[trigger] s@[j]),
        decreases b,
    {
        b = b - 1;
    }
    let mut a: usize = 0;
    while a < b && char_in_set(cs, s.get_char(a))
        invariant
            0 <= a <= b <= n == s@.len(),
            forall|j: int| 0 <= j < a ==> in_char_set(*cs, #[trigger] s@[j]),
        decreases b - a,
    {
        a = a + 1;
    }
    proof {
        lemma_trim_end_cs_exact(s@, *cs, b as nat);
        let t = s@.take(b as int);
        lemma_trim_start_cs_exact(t, *cs, a as nat);
        assert(t.skip(a as int) =~= s@.subrange(a as int, b as int));
    }
    String::from_str(s.substring_char(a, b))
}

/// Removes from the start of `s` every character of the set `cs`.
pub fn trim_start_chars(s: &str, cs: &CharSet) -> (r: String)
    ensures
        r@ == trim_start_cs(s@, *cs),
{
    let n = s.unicode_len();
    let mut a: usize = 0;
    while a < n && char_in_set(cs, s.get_char(a))
        invariant
            0 <= a <= n == s@.len(),
            forall|j: int| 0 <= j < a ==> in_char_set(*cs, #[trigger] s@[j]),
        decreases n - a,
    {
        a = a + 1;
    }
    proof {
        lemma_trim_start_cs_exact(s@, *cs, a as nat);
        assert(s@.skip(a as int) =~= s@.subrange(a as int, n as int));
    }
    String::from_str(s.substring_char(a, n))
}

/// Character-wise string equality, specified over the views.
pub fn str_eq(a: &str, b: &str) -> (r: bool)
    ensures
        r == (a@ == b@),
{
    let n = a.unicode_len();
    if n != b.unicode_len() {
        return false;
    }
    let mut i: usize = 0;
    while i < n
        invariant
            0 <= i <= n == a@.len(),
            a@.len() == b@.len(),
            forall|j: int| 0 <= j < i ==> a@[j] == b@[j],
        decreases n - i,
    {
        if a.get_char(i) != b.get_char(i) {
            proof {
                assert(a@[i as int] != b@[i as int]);
            }
            return false;
        }
        i = i + 1;
    }
    proof {
        assert(a@ =~= b@);
    }
    true
}

/// Whether `sub` occurs in `s` as a contiguous subsequence.
pub open spec fn contains_seq(s: Seq<char>, sub: Seq<char>) -> bool {
    exists|i: int| 0 <= i <= s.len() - sub.len() && #[trigger] s.subrange(i, i + sub.len()) == sub
}

/// Whether `sub@` occurs in `s@` starting at index `i`.
fn matches_at(s: &str, sub: &str, i: usize) -> (r: bool)
    requires
        i + sub@.len() <= s@.len(),
    ensures
        r == (s@.subrange(i as int, i + sub@.len()) == sub@),
{
    let n = s.unicode_len();
    let m = sub.unicode_len();
    let mut j: usize = 0;
    while j < m
        invariant
            0 <= j <= m == sub@.len(),
            i + m <= n == s@.len(),
            forall|jj: int| 0 <= jj < j ==> s@[i + jj] == sub@[jj],
        decreases m - j,
    {
        if s.get_char(i + j) != sub.get_char(j) {
            proof {
                assert(s@.subrange(i as int, i + sub@.len())[j as int] == s@[i + j]);
            }
            return false;
        }
        j = j + 1;
    }
    proof {
        assert(s@.subrange(i as int, i + sub@.len()) =~= sub@);
    }
    true
}

/// Substring search, specified against [`contains_seq`].
pub fn contains_str(s: &str, sub: &str) -> (r: bool)
    ensures
        r == contains_seq(s@, sub@),
{
    let n = s.unicode_len();
    let m = sub.unicode_len();
    if m == 0 {
        proof {
            assert(s@.subrange(0, 0 + sub@.len() as int) =~= sub@);
        }
        return true;
    }
    if m > n {
        proof {
            assert(!contains_seq(s@, sub@));
        }
        return false;
    }
    let mut i: usize = 0;
    while i <= n - m
        invariant
            0 <= i <= n - m + 1,
            1 <= m <= n == s@.len(),
            m == sub@.len(),
            forall|ii: int| 0 <= ii < i ==> #[trigger] s@.subrange(ii, ii + sub@.len()) != sub@,
        decreases n - m + 1 - i,
    {
        if matches_at(s, sub, i) {
            return true;
        }
        i = i + 1;
    }
    proof {
        assert forall|ii: int| 0 <= ii <= s@.len() - sub@.len() implies #[trigger] s@.subrange(
            ii,
            ii + sub@.len(),
        ) != sub@ by {}
    }
    false
}

/// `s` with every occurrence of the non-empty pattern `pat` removed, scanning
/// left to right without overlap; `s` itself when `pat` is empty.
pub open spec fn remove_all_spec(s: Seq<char>, pat: Seq<char>) -> Seq<char>
    decreases s.len(),
{
    if pat.len() == 0 || s.len() < pat.len() {
        s
    } else if s.take(pat.len() as int) == pat {
        remove_all_spec(s.skip(pat.len() as int), pat)
    } else {
        seq![s[0]] + remove_all_spec(s.drop_first(), pat)
    }
}

/// Removes every occurrence of `pat` from `s`, as [`remove_all_spec`] says.
pub fn remove_occurrences(s: &str, pat: &str) -> (r: String)
    ensures
        r@ == remove_all_spec(s@, pat@),
{
    let n = s.unicode_len();
    let m = pat.unicode_len();
    if m == 0 {
        return String::from_str(s);
    }
    let mut acc = String::new();
    let mut i: usize = 0;
    proof {
        assert(s@.skip(0) =~= s@);
    }
    while i < n
        invariant
            0 <= i <= n == s@.len(),
            m == pat@.len(),
            m > 0,
            acc@ + remove_all_spec(s@.skip(i as int), pat@) == remove_all_spec(s@, pat@),
        decreases n - i,
    {
        let ghost rest = s@.skip(i as int);
        if m <= n - i && matches_at(s, pat, i) {
            proof {
                assert(rest.take(m as int) =~= s@.subrange(i as int, i + m));
                assert(rest.skip(m as int) =~= s@.skip(i + m));
            }
            i = i + m;
        } else {
            proof {
                assert(rest[0] == s@[i as int]);
                assert(rest.drop_first() =~= s@.skip(i as int + 1));
                if i + m <= n {
                    assert(rest.take(m as int) =~= s@.subrange(i as int, i + m));
                    assert(rest.take(m as int) != pat@);
                } else {
                    assert(rest.len() < pat@.len());
                }
                assert(s@.subrange(i as int, i as int + 1) =~= seq![s@[i as int]]);
            }
            acc.append(s.substring_char(i, i + 1));
            i = i + 1;
        }
    }
    proof {
        assert(s@.skip(n as int) =~= Seq::<char>::empty());
        assert(acc@ =~= remove_all_spec(s@, pat@));
    }
    acc
}

} // verus!
