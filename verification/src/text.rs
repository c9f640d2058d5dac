//! Character-level helpers shared by the text-processing parts of the
//! library: whitespace trimming, ASCII case folding, string equality and
//! substring search, and decimal rendering of integers.
use vstd::prelude::*;
use vstd::string::*;

verus! {

/// The whitespace characters recognized when trimming text.
pub open spec fn is_space(c: char) -> bool {
    c == ' ' || c == '\t' || c == '\r' || c == '\n'
}

/// ASCII case folding of a single character; other characters are unchanged.
pub open spec fn lower_char(c: char) -> char {
    if 65 <= c as u32 && c as u32 <= 90 {
        (c as u8 + 32) as char
    } else {
        c
    }
}

/// A sequence with every character ASCII-lowercased.
pub open spec fn lower_seq(s: Seq<char>) -> Seq<char> {
    s.map_values(|c: char| lower_char(c))
}

/// The suffix of `s` after its leading whitespace.
pub open spec fn trim_start_spec(s: Seq<char>) -> Seq<char>
    decreases s.len(),
{
    if s.len() > 0 && is_space(s[0]) {
        trim_start_spec(s.skip(1))
    } else {
        s
    }
}

/// The prefix of `s` before its trailing whitespace.
pub open spec fn trim_end_spec(s: Seq<char>) -> Seq<char>
    decreases s.len(),
{
    if s.len() > 0 && is_space(s[s.len() - 1]) {
        trim_end_spec(s.drop_last())
    } else {
        s
    }
}

/// `s` without leading and trailing whitespace.
pub open spec fn trim_spec(s: Seq<char>) -> Seq<char> {
    trim_end_spec(trim_start_spec(s))
}

fn is_space_char(c: char) -> (r: bool)
    ensures
        r == is_space(c),
{
    c == ' ' || c == '\t' || c == '\r' || c == '\n'
}

fn lower_char_exec(c: char) -> (r: char)
    ensures
        r == lower_char(c),
{
    if 'A' <= c && c <= 'Z' {
        (c as u8 + 32) as char
    } else {
        c
    }
}

/// If exactly the first `k` characters of `s` are whitespace, trimming the
/// start of `s` drops exactly those `k` characters.
proof fn lemma_trim_start_exact(s: Seq<char>, k: int)
    requires
        0 <= k <= s.len(),
        forall|i: int| 0 <= i < k ==> is_space(s[i]),
        k == s.len() || !is_space(s[k]),
    ensures
        trim_start_spec(s) =~= s.skip(k),
    decreases k,
{
    if k == 0 {
        assert(s.skip(0) =~= s);
    } else {
        assert(is_space(s[0]));
        lemma_trim_start_exact(s.skip(1), k - 1);
        assert(s.skip(1).skip(k - 1) =~= s.skip(k));
    }
}

/// If exactly the characters of `s` from index `k` on are whitespace,
/// trimming the end of `s` keeps exactly the first `k` characters.
pub proof fn lemma_trim_end_exact(s: Seq<char>, k: int)
    requires
        0 <= k <= s.len(),
        forall|i: int| k <= i < s.len() ==> is_space(s[i]),
        k == 0 || !is_space(s[k - 1]),
    ensures
        trim_end_spec(s) =~= s.take(k),
    decreases s.len() - k,
{
    if k == s.len() {
        if s.len() > 0 {
            assert(!is_space(s[s.len() - 1]));
        }
        assert(s.take(k) =~= s);
    } else {
        assert(is_space(s[s.len() - 1]));
        lemma_trim_end_exact(s.drop_last(), k);
        assert(s.drop_last().take(k) =~= s.take(k));
    }
}

/// A trimmed start never begins with whitespace.
pub proof fn lemma_trim_start_head(s: Seq<char>)
    ensures
        trim_start_spec(s).len() > 0 ==> !is_space(trim_start_spec(s)[0]),
        trim_start_spec(s).len() <= s.len(),
    decreases s.len(),
{
    if s.len() > 0 && is_space(s[0]) {
        lemma_trim_start_head(s.skip(1));
    }
}

/// A trimmed end is a prefix of the original and never ends with whitespace.
pub proof fn lemma_trim_end_prefix(s: Seq<char>)
    ensures
        trim_end_spec(s).len() <= s.len(),
        forall|i: int| 0 <= i < trim_end_spec(s).len() ==> trim_end_spec(s)[i] == s[i],
        trim_end_spec(s).len() > 0 ==> !is_space(trim_end_spec(s)[trim_end_spec(s).len() - 1]),
    decreases s.len(),
{
    if s.len() > 0 && is_space(s[s.len() - 1]) {
        lemma_trim_end_prefix(s.drop_last());
        assert(trim_end_spec(s) == trim_end_spec(s.drop_last()));
        assert(forall|i: int| 0 <= i < s.drop_last().len() ==> s.drop_last()[i] == s[i]);
    }
}

/// Trimming an already-trimmed sequence changes nothing.
pub proof fn lemma_trim_idempotent(s: Seq<char>)
    ensures
        trim_spec(trim_spec(s)) == trim_spec(s),
{
    let u = trim_start_spec(s);
    let v = trim_end_spec(u);
    lemma_trim_start_head(s);
    lemma_trim_end_prefix(u);
    if v.len() > 0 {
        assert(v[0] == u[0]);
        assert(trim_start_spec(v) == v);
        assert(trim_end_spec(v) == v);
    } else {
        assert(trim_start_spec(v) == v);
        assert(trim_end_spec(v) == v);
    }
}

/// A sequence holding a non-whitespace character trims to something non-empty.
pub proof fn lemma_trim_keeps_mark(s: Seq<char>, j: int)
    requires
        0 <= j < s.len(),
        !is_space(s[j]),
    ensures
        trim_spec(s).len() > 0,
{
    lemma_trim_start_mark(s, j);
    let u = trim_start_spec(s);
    let k = choose|k: int| 0 <= k < u.len() && !is_space(u[k]);
    lemma_trim_end_mark(u, k);
}

proof fn lemma_trim_start_mark(s: Seq<char>, j: int)
    requires
        0 <= j < s.len(),
        !is_space(s[j]),
    ensures
        exists|k: int| 0 <= k < trim_start_spec(s).len() && !is_space(#[trigger] trim_start_spec(s)[k]),
    decreases s.len(),
{
    if s.len() > 0 && is_space(s[0]) {
        assert(s.skip(1)[j - 1] == s[j]);
        lemma_trim_start_mark(s.skip(1), j - 1);
        assert(trim_start_spec(s) == trim_start_spec(s.skip(1)));
    } else {
        assert(trim_start_spec(s) == s);
        assert(!is_space(trim_start_spec(s)[j]));
    }
}

proof fn lemma_trim_end_mark(s: Seq<char>, j: int)
    requires
        0 <= j < s.len(),
        !is_space(s[j]),
    ensures
        trim_end_spec(s).len() > 0,
    decreases s.len(),
{
    if s.len() > 0 && is_space(s[s.len() - 1]) {
        assert(s.drop_last()[j] == s[j]);
        lemma_trim_end_mark(s.drop_last(), j);
    }
}

/// A trimmed start is a suffix of the original, cut after leading whitespace.
pub proof fn lemma_trim_start_suffix(s: Seq<char>) -> (k: int)
    ensures
        0 <= k <= s.len(),
        trim_start_spec(s) == s.skip(k),
        forall|i: int| 0 <= i < k ==> is_space(s[i]),
    decreases s.len(),
{
    if s.len() > 0 && is_space(s[0]) {
        let k1 = lemma_trim_start_suffix(s.skip(1));
        assert(s.skip(1).skip(k1) =~= s.skip(k1 + 1));
        assert(forall|i: int| 1 <= i < k1 + 1 ==> s[i] == s.skip(1)[i - 1]);
        k1 + 1
    } else {
        assert(s.skip(0) =~= s);
        0
    }
}

/// Dropping a trailing whitespace character does not change the trim.
pub proof fn lemma_trim_drop_last_space(s: Seq<char>)
    requires
        s.len() > 0,
        is_space(s[s.len() - 1]),
    ensures
        trim_spec(s.drop_last()) == trim_spec(s),
{
    let k = lemma_trim_start_suffix(s);
    if k == s.len() {
        lemma_trim_start_exact(s.drop_last(), s.len() - 1);
        assert(s.drop_last().skip(s.len() - 1) =~= Seq::<char>::empty());
        assert(s.skip(k) =~= Seq::<char>::empty());
        assert(trim_end_spec(Seq::<char>::empty()) == Seq::<char>::empty());
    } else {
        lemma_trim_start_head(s);
        assert(trim_start_spec(s)[0] == s[k]);
        assert(!is_space(s[k]));
        assert(k < s.len() - 1) by {
            if k == s.len() - 1 {
                assert(is_space(s[k]));
            }
        }
        assert(forall|i: int| 0 <= i < k ==> s.drop_last()[i] == s[i]);
        assert(s.drop_last()[k] == s[k]);
        lemma_trim_start_exact(s.drop_last(), k);
        assert(s.drop_last().skip(k) =~= s.skip(k).drop_last());
        let u = s.skip(k);
        assert(u.len() > 0 && is_space(u[u.len() - 1]));
        assert(trim_end_spec(u) == trim_end_spec(u.drop_last()));
    }
}

/// Everything beyond a trimmed end is whitespace.
pub proof fn lemma_trim_end_cut(s: Seq<char>)
    ensures
        trim_end_spec(s).len() <= s.len(),
        forall|i: int| trim_end_spec(s).len() <= i < s.len() ==> is_space(s[i]),
    decreases s.len(),
{
    if s.len() > 0 && is_space(s[s.len() - 1]) {
        lemma_trim_end_cut(s.drop_last());
        assert(trim_end_spec(s) == trim_end_spec(s.drop_last()));
        assert(forall|i: int| 0 <= i < s.drop_last().len() ==> s.drop_last()[i] == s[i]);
    }
}

/// When the left part holds a non-whitespace character, trimming the start
/// of a concatenation never reaches the right part.
pub proof fn lemma_trim_start_concat(a: Seq<char>, b: Seq<char>, j: int)
    requires
        0 <= j < a.len(),
        !is_space(a[j]),
    ensures
        trim_start_spec(a + b) == trim_start_spec(a) + b,
    decreases a.len(),
{
    if is_space(a[0]) {
        assert((a + b)[0] == a[0]);
        assert((a + b).skip(1) =~= a.skip(1) + b);
        assert(a.skip(1)[j - 1] == a[j]);
        lemma_trim_start_concat(a.skip(1), b, j - 1);
    } else {
        assert((a + b)[0] == a[0]);
        assert(trim_start_spec(a + b) == a + b);
        assert(trim_start_spec(a) == a);
    }
}

/// The character range of `s` left after trimming whitespace from both ends.
pub fn trim_bounds(s: &str) -> (r: (usize, usize))
    ensures
        r.0 <= r.1 <= s@.len(),
        trim_spec(s@) =~= s@.subrange(r.0 as int, r.1 as int),
{
    let n = s.unicode_len();
    let mut a: usize = 0;
    while a < n && is_space_char(s.get_char(a))
        invariant
            a <= n,
            n == s@.len(),
            forall|i: int| 0 <= i < a ==> is_space(s@[i]),
        decreases n - a,
    {
        a = a + 1;
    }
    proof {
        lemma_trim_start_exact(s@, a as int);
    }
    let mut b: usize = n;
    while b > a && is_space_char(s.get_char(b - 1))
        invariant
            a <= b <= n,
            n == s@.len(),
            forall|i: int| b <= i < n ==> is_space(s@[i]),
        decreases b,
    {
        b = b - 1;
    }
    proof {
        let u = s@.skip(a as int);
        assert(forall|i: int|
            b - a <= i < u.len() ==> is_space(#[trigger] u[i]) && u[i] == s@[i + a]);
        if b > a {
            assert(u[b - a - 1] == s@[b - 1]);
        }
        lemma_trim_end_exact(u, b - a);
        assert(u.take(b - a) =~= s@.subrange(a as int, b as int));
    }
    (a, b)
}

/// `s` with surrounding whitespace removed, as the original slice.
pub fn trim_str<'a>(s: &'a str) -> (r: &'a str)
    ensures
        r@ == trim_spec(s@),
{
    let (a, b) = trim_bounds(s);
    let r = s.substring_char(a, b);
    proof {
        assert(r@ =~= trim_spec(s@));
    }
    r
}

/// Whether `p` is a prefix of `s`.
pub open spec fn starts_with(s: Seq<char>, p: Seq<char>) -> bool {
    p.len() <= s.len() && s.take(p.len() as int) =~= p
}

/// Whether the range `[from, to)` of `s`, ASCII-lowercased, starts with `pat`.
pub fn range_starts_with_lower(s: &str, from: usize, to: usize, pat: &str) -> (r: bool)
    requires
        from <= to <= s@.len(),
    ensures
        r == starts_with(lower_seq(s@.subrange(from as int, to as int)), pat@),
{
    let ghost t = lower_seq(s@.subrange(from as int, to as int));
    let pn = pat.unicode_len();
    if pn > to - from {
        return false;
    }
    let mut k: usize = 0;
    while k < pn
        invariant
            from <= to <= s@.len(),
            pn == pat@.len(),
            pn <= to - from,
            k <= pn,
            t == lower_seq(s@.subrange(from as int, to as int)),
            forall|i: int| 0 <= i < k ==> t[i] == pat@[i],
        decreases pn - k,
    {
        let c = lower_char_exec(s.get_char(from + k));
        proof {
            assert(t[k as int] == lower_char(s@.subrange(from as int, to as int)[k as int]));
        }
        if c != pat.get_char(k) {
            proof {
                assert(!(t.take(pn as int) =~= pat@)) by {
                    if t.take(pn as int) =~= pat@ {
                        assert(t.take(pn as int)[k as int] == pat@[k as int]);
                    }
                }
            }
            return false;
        }
        k = k + 1;
    }
    proof {
        assert(t.take(pn as int) =~= pat@);
    }
    true
}

/// Whether the range `[from, to)` of `s`, ASCII-lowercased, equals `pat`.
pub fn range_eq_lower(s: &str, from: usize, to: usize, pat: &str) -> (r: bool)
    requires
        from <= to <= s@.len(),
    ensures
        r == (lower_seq(s@.subrange(from as int, to as int)) =~= pat@),
{
    let pn = pat.unicode_len();
    if pn != to - from {
        return false;
    }
    range_starts_with_lower(s, from, to, pat)
}

/// Character-by-character equality of two string slices.
pub fn str_eq(a: &str, b: &str) -> (r: bool)
    ensures
        r == (a@ == b@),
{
    let an = a.unicode_len();
    let bn = b.unicode_len();
    if an != bn {
        proof {
            assert(a@ != b@) by {
                if a@ == b@ {
                    assert(a@.len() == b@.len());
                }
            }
        }
        return false;
    }
    let mut i: usize = 0;
    while i < an
        invariant
            i <= an,
            an == a@.len(),
            an == b@.len(),
            forall|j: int| 0 <= j < i ==> a@[j] == b@[j],
        decreases an - i,
    {
        if a.get_char(i) != b.get_char(i) {
            proof {
                assert(a@ != b@) by {
                    if a@ == b@ {
                        assert(a@[i as int] == b@[i as int]);
                    }
                }
            }
            return false;
        }
        i = i + 1;
    }
    proof {
        assert(a@ =~= b@);
    }
    true
}

/// Whether `needle` occurs as a contiguous run of characters in `hay`.
pub open spec fn contains_seq(hay: Seq<char>, needle: Seq<char>) -> bool {
    exists|i: int|
        0 <= i <= hay.len() - needle.len() && #[trigger] hay.subrange(i, i + needle.len())
            =~= needle
}

/// Naive substring search, as the standard `contains` would answer it.
pub fn str_contains(hay: &str, needle: &str) -> (r: bool)
    ensures
        r == contains_seq(hay@, needle@),
{
    let hn = hay.unicode_len();
    let nn = needle.unicode_len();
    if nn > hn {
        return false;
    }
    let mut i: usize = 0;
    while i <= hn - nn
        invariant
            nn <= hn,
            hn == hay@.len(),
            nn == needle@.len(),
            i <= hn - nn + 1,
            forall|k: int|
                0 <= k < i ==> !(#[trigger] hay@.subrange(k, k + needle@.len()) =~= needle@),
        decreases hn + 1 - nn - i,
    {
        let mut j: usize = 0;
        let mut matches = true;
        while j < nn && matches
            invariant
                nn == needle@.len(),
                hn == hay@.len(),
                i + nn <= hn,
                j <= nn,
                matches ==> forall|k: int| 0 <= k < j ==> hay@[i + k] == needle@[k],
                !matches ==> !(hay@.subrange(i as int, i + needle@.len()) =~= needle@),
            decreases nn - j,
    {
            if hay.get_char(i + j) != needle.get_char(j) {
                proof {
                    assert(hay@.subrange(i as int, i + needle@.len())[j as int] == hay@[i + j]);
                }
                matches = false;
            }
            j = j + 1;
        }
        if matches {
            proof {
                assert forall|k: int| 0 <= k < nn implies #[trigger] hay@.subrange(
                    i as int,
                    i + needle@.len(),
                )[k] == needle@[k] by {
                    assert(hay@.subrange(i as int, i + needle@.len())[k] == hay@[i + k]);
                }
                assert(hay@.subrange(i as int, i + needle@.len()) =~= needle@);
            }
            return true;
        }
        i = i + 1;
    }
    proof {
        assert(!contains_seq(hay@, needle@)) by {
            if contains_seq(hay@, needle@) {
                let k = choose|k: int|
                    0 <= k <= hay@.len() - needle@.len() && #[trigger] hay@.subrange(
                        k,
                        k + needle@.len(),
                    ) =~= needle@;
                assert(k < i);
            }
        }
    }
    false
}

} // verus!
