//! The response sanitizer. A model often prepends conversational filler to
//! its answer ("Sure, here is ...", "Output:"). The sanitizer splits the raw
//! response into lines, drops leading lines that are empty or filler, and
//! joins what remains; if that would strip the whole response it falls back
//! to the raw text. The final result is always trimmed of surrounding
//! whitespace.
use vstd::prelude::*;
use vstd::string::*;

use crate::text::is_space;
use crate::text::lemma_trim_idempotent;
use crate::text::lemma_trim_keeps_mark;
use crate::text::lower_seq;
use crate::text::starts_with;
use crate::text::trim_end_spec;
use crate::text::trim_spec;
use crate::text::trim_start_spec;
use crate::text::trim_str;

verus! {

/// Index of the first newline in `s`, or `s.len()` when there is none.
pub open spec fn find_nl(s: Seq<char>) -> int
    decreases s.len(),
{
    if s.len() == 0 {
        0
    } else if s[0] == '\n' {
        0
    } else {
        1 + find_nl(s.skip(1))
    }
}

proof fn lemma_find_nl_le(s: Seq<char>)
    ensures
        0 <= find_nl(s) <= s.len(),
        find_nl(s) < s.len() ==> s[find_nl(s)] == '\n',
        forall|i: int| 0 <= i < find_nl(s) ==> s[i] != '\n',
    decreases s.len(),
{
    if s.len() == 0 {
    } else if s[0] == '\n' {
    } else {
        lemma_find_nl_le(s.skip(1));
        assert(forall|i: int| 1 <= i < find_nl(s) ==> s[i] == s.skip(1)[i - 1]);
    }
}

proof fn lemma_find_nl_exact(s: Seq<char>, j: int)
    requires
        0 <= j <= s.len(),
        forall|i: int| 0 <= i < j ==> s[i] != '\n',
        j == s.len() || s[j] == '\n',
    ensures
        find_nl(s) == j,
    decreases j,
{
    if s.len() == 0 {
    } else if s[0] == '\n' {
    } else {
        assert(forall|i: int| 0 <= i < j - 1 ==> s.skip(1)[i] != '\n');
        if j < s.len() {
            assert(s.skip(1)[j - 1] == s[j]);
        }
        lemma_find_nl_exact(s.skip(1), j - 1);
    }
}

/// A line with its trailing carriage return removed, as `str::lines` yields it.
pub open spec fn strip_cr(line: Seq<char>) -> Seq<char> {
    if line.len() > 0 && line[line.len() - 1] == '\r' {
        line.drop_last()
    } else {
        line
    }
}

/// The lines of `s`: split at newlines, each line without the carriage
/// return that closed it. A final line without a newline is kept as it is;
/// empty text has no lines.
pub open spec fn lines_of(s: Seq<char>) -> Seq<Seq<char>>
    decreases s.len(),
    via lines_of_decreases
{
    if s.len() == 0 {
        Seq::empty()
    } else if find_nl(s) == s.len() {
        seq![s]
    } else {
        seq![strip_cr(s.take(find_nl(s)))] + lines_of(s.skip(find_nl(s) + 1))
    }
}

#[via_fn]
proof fn lines_of_decreases(s: Seq<char>) {
    lemma_find_nl_le(s);
}

/// The lines joined back with single newlines.
pub open spec fn join_lines(ls: Seq<Seq<char>>) -> Seq<char>
    decreases ls.len(),
{
    if ls.len() == 0 {
        Seq::empty()
    } else if ls.len() == 1 {
        ls[0]
    } else {
        ls[0] + seq!['\n'] + join_lines(ls.skip(1))
    }
}

/// Whether a line is conversational filler: empty after trimming, or (after
/// trimming and ASCII case folding) starting with "here is", "sure" or
/// "output", or exactly "fixed text:".
pub open spec fn is_filler_line(line: Seq<char>) -> bool {
    let t = lower_seq(trim_spec(line));
    ||| t.len() == 0
    ||| starts_with(t, "here is"@)
    ||| starts_with(t, "sure"@)
    ||| starts_with(t, "output"@)
    ||| t =~= "fixed text:"@
}

/// The lines left after dropping the leading run of filler lines.
pub open spec fn drop_filler(ls: Seq<Seq<char>>) -> Seq<Seq<char>>
    decreases ls.len(),
{
    if ls.len() == 0 {
        ls
    } else if is_filler_line(ls[0]) {
        drop_filler(ls.skip(1))
    } else {
        ls
    }
}

/// What the sanitizer returns: the non-filler tail of the lines, rejoined
/// and trimmed; or the trimmed raw text when stripping left nothing.
pub open spec fn sanitize_spec(raw: Seq<char>) -> Seq<char> {
    let cleaned = join_lines(drop_filler(lines_of(raw)));
    if trim_spec(cleaned).len() == 0 {
        trim_spec(raw)
    } else {
        trim_spec(cleaned)
    }
}

/// Whether `x` holds no newline at all.
pub open spec fn has_no_nl(x: Seq<char>) -> bool {
    forall|j: int| 0 <= j < x.len() ==> x[j] != '\n'
}

/// Whether `x` holds no carriage return directly before a newline.
pub open spec fn no_crlf(x: Seq<char>) -> bool {
    forall|j: int| 0 <= j < x.len() - 1 ==> !((#[trigger] x[j]) == '\r' && x[j + 1] == '\n')
}

/// No line produced by the split contains a newline.
proof fn lemma_lines_no_newline(s: Seq<char>)
    ensures
        forall|i: int| 0 <= i < lines_of(s).len() ==> has_no_nl(#[trigger] lines_of(s)[i]),
    decreases s.len(),
{
    lemma_find_nl_le(s);
    let i = find_nl(s);
    if s.len() == 0 {
    } else if i == s.len() {
        assert(has_no_nl(s));
    } else {
        let head = strip_cr(s.take(i));
        assert(forall|j: int| 0 <= j < s.take(i).len() ==> s.take(i)[j] != '\n');
        assert(has_no_nl(head));
        lemma_lines_no_newline(s.skip(i + 1));
        assert(forall|k: int|
            1 <= k < lines_of(s).len() ==> lines_of(s)[k] == lines_of(s.skip(i + 1))[k - 1]);
        assert(lines_of(s)[0] == head);
    }
}

/// Splitting the rejoined lines gives the lines back, provided the text is
/// non-empty, holds no carriage return before a newline, and does not end
/// with a newline.
proof fn lemma_join_lines_of(s: Seq<char>)
    requires
        s.len() > 0,
        no_crlf(s),
        s[s.len() - 1] != '\n',
    ensures
        lines_of(s).len() > 0,
        join_lines(lines_of(s)) == s,
    decreases s.len(),
{
    lemma_find_nl_le(s);
    let i = find_nl(s);
    if i < s.len() {
        let rest = s.skip(i + 1);
        assert(i + 1 < s.len()) by {
            if i + 1 == s.len() {
                assert(s[s.len() - 1] == '\n');
            }
        }
        assert(no_crlf(rest)) by {
            assert forall|j: int| 0 <= j < rest.len() - 1 implies !((#[trigger] rest[j]) == '\r'
                && rest[j + 1] == '\n') by {
                assert(rest[j] == s[i + 1 + j]);
                assert(rest[j + 1] == s[i + 1 + j + 1]);
            }
        }
        assert(rest[rest.len() - 1] == s[s.len() - 1]);
        lemma_join_lines_of(rest);
        if i > 0 {
            assert(!(s[i - 1] == '\r' && s[i] == '\n'));
            assert(s.take(i)[i - 1] == s[i - 1]);
        }
        assert(strip_cr(s.take(i)) =~= s.take(i));
        let ls = lines_of(s);
        assert(ls == seq![s.take(i)] + lines_of(rest));
        assert(ls.len() >= 2);
        assert(ls[0] == s.take(i));
        assert(ls.skip(1) =~= lines_of(rest));
        assert(join_lines(ls) == ls[0] + seq!['\n'] + join_lines(ls.skip(1)));
        assert(s.take(i) + seq!['\n'] + rest =~= s);
    }
}

/// Trimming keeps a text free of carriage-return-newline pairs.
proof fn lemma_trim_no_crlf(s: Seq<char>)
    requires
        no_crlf(s),
    ensures
        no_crlf(trim_spec(s)),
{
    let k = crate::text::lemma_trim_start_suffix(s);
    let u = trim_start_spec(s);
    assert(no_crlf(u)) by {
        assert forall|j: int| 0 <= j < u.len() - 1 implies !((#[trigger] u[j]) == '\r' && u[j + 1]
            == '\n') by {
            assert(u[j] == s[k + j]);
            assert(u[j + 1] == s[k + j + 1]);
        }
    }
    crate::text::lemma_trim_end_prefix(u);
    let v = trim_end_spec(u);
    assert forall|j: int| 0 <= j < v.len() - 1 implies !((#[trigger] v[j]) == '\r' && v[j + 1]
        == '\n') by {
        assert(v[j] == u[j]);
        assert(v[j + 1] == u[j + 1]);
    }
}

/// Being filler only depends on a line's trim, so removing a leading or
/// trailing whitespace character, or the trailing carriage return, does not
/// change it.
proof fn lemma_filler_skip_space(x: Seq<char>)
    requires
        x.len() > 0,
        is_space(x[0]),
    ensures
        is_filler_line(x.skip(1)) == is_filler_line(x),
{
    assert(trim_start_spec(x) == trim_start_spec(x.skip(1)));
}

proof fn lemma_filler_drop_space(x: Seq<char>)
    requires
        x.len() > 0,
        is_space(x[x.len() - 1]),
    ensures
        is_filler_line(x.drop_last()) == is_filler_line(x),
{
    crate::text::lemma_trim_drop_last_space(x);
}

proof fn lemma_filler_strip_cr(x: Seq<char>)
    ensures
        is_filler_line(strip_cr(x)) == is_filler_line(x),
{
    if x.len() > 0 && x[x.len() - 1] == '\r' {
        crate::text::lemma_trim_drop_last_space(x);
    }
}

/// Dropping the filler prefix cuts the line list after a run of filler.
proof fn lemma_drop_filler_suffix(ls: Seq<Seq<char>>) -> (k: int)
    ensures
        0 <= k <= ls.len(),
        drop_filler(ls) == ls.skip(k),
        forall|i: int| 0 <= i < k ==> is_filler_line(#[trigger] ls[i]),
    decreases ls.len(),
{
    if ls.len() > 0 && is_filler_line(ls[0]) {
        let k1 = lemma_drop_filler_suffix(ls.skip(1));
        assert(ls.skip(1).skip(k1) =~= ls.skip(k1 + 1));
        assert(forall|i: int| 1 <= i < k1 + 1 ==> ls[i] == ls.skip(1)[i - 1]);
        k1 + 1
    } else {
        assert(ls.skip(0) =~= ls);
        0
    }
}

/// What survives the filler drop never starts with a filler line.
proof fn lemma_drop_filler_head(ls: Seq<Seq<char>>)
    requires
        drop_filler(ls).len() > 0,
    ensures
        !is_filler_line(drop_filler(ls)[0]),
    decreases ls.len(),
{
    if ls.len() > 0 && is_filler_line(ls[0]) {
        lemma_drop_filler_head(ls.skip(1));
    }
}

/// A line that is not filler holds a non-whitespace character.
proof fn lemma_non_filler_has_mark(line: Seq<char>) -> (j: int)
    requires
        !is_filler_line(line),
    ensures
        0 <= j < line.len(),
        !is_space(line[j]),
{
    assert(trim_spec(line).len() > 0);
    let k = crate::text::lemma_trim_start_suffix(line);
    crate::text::lemma_trim_start_head(line);
    crate::text::lemma_trim_end_prefix(trim_start_spec(line));
    assert(trim_start_spec(line).len() > 0);
    assert(trim_start_spec(line)[0] == line[k]);
    k
}

/// The first line is a prefix of the joined lines.
proof fn lemma_join_head_prefix(ls: Seq<Seq<char>>)
    requires
        ls.len() > 0,
    ensures
        join_lines(ls).len() >= ls[0].len(),
        forall|j: int| 0 <= j < ls[0].len() ==> join_lines(ls)[j] == ls[0][j],
{
    if ls.len() == 1 {
    } else {
        assert(forall|j: int|
            0 <= j < ls[0].len() ==> (ls[0] + seq!['\n'] + join_lines(ls.skip(1)))[j] == ls[0][j]);
    }
}

/// Whether a line still carries a trailing carriage return.
pub open spec fn ends_with_cr(x: Seq<char>) -> bool {
    x.len() > 0 && x[x.len() - 1] == '\r'
}

/// Joining lines that hold no newline, none but the last ending in a
/// carriage return, yields a text without carriage-return-newline pairs.
proof fn lemma_join_no_crlf(ls: Seq<Seq<char>>)
    requires
        forall|i: int| 0 <= i < ls.len() ==> has_no_nl(#[trigger] ls[i]),
        forall|i: int| 0 <= i < ls.len() - 1 ==> !ends_with_cr(#[trigger] ls[i]),
    ensures
        no_crlf(join_lines(ls)),
    decreases ls.len(),
{
    if ls.len() <= 1 {
    } else {
        assert(forall|i: int| 0 <= i < ls.skip(1).len() ==> ls.skip(1)[i] == ls[i + 1]);
        lemma_join_no_crlf(ls.skip(1));
        let head = ls[0];
        let jj = join_lines(ls.skip(1));
        let g = head + seq!['\n'] + jj;
        let n0 = head.len() as int;
        assert forall|j: int| 0 <= j < g.len() - 1 implies !((#[trigger] g[j]) == '\r' && g[j + 1]
            == '\n') by {
            if j + 1 < n0 {
                assert(g[j + 1] == head[j + 1]);
            } else if j + 1 == n0 {
                assert(g[j] == head[n0 - 1]);
                assert(!ends_with_cr(head));
            } else if j == n0 {
                assert(g[j] == '\n');
            } else {
                assert(g[j] == jj[j - n0 - 1]);
                assert(g[j + 1] == jj[j - n0]);
            }
        }
    }
}

/// Dropping a leading whitespace character keeps every line filler.
proof fn lemma_all_filler_skip(s: Seq<char>)
    requires
        s.len() > 0,
        is_space(s[0]),
        forall|i: int| 0 <= i < lines_of(s).len() ==> is_filler_line(#[trigger] lines_of(s)[i]),
    ensures
        forall|i: int|
            0 <= i < lines_of(s.skip(1)).len() ==> is_filler_line(
                #[trigger] lines_of(s.skip(1))[i],
            ),
{
    lemma_find_nl_le(s);
    let i = find_nl(s);
    let t = s.skip(1);
    if s[0] == '\n' {
        assert(i == 0);
        assert(lines_of(s) == seq![strip_cr(s.take(0))] + lines_of(t));
        assert(forall|k: int| 0 <= k < lines_of(t).len() ==> lines_of(t)[k] == lines_of(s)[k + 1]);
    } else if i == s.len() {
        assert(lines_of(s) == seq![s]);
        assert(is_filler_line(lines_of(s)[0]));
        if t.len() > 0 {
            assert(forall|j: int| 0 <= j < t.len() ==> t[j] == s[j + 1]);
            lemma_find_nl_exact(t, t.len() as int);
            assert(lines_of(t) == seq![t]);
            lemma_filler_skip_space(s);
        }
    } else {
        assert(1 <= i);
        assert(forall|j: int| 0 <= j < i - 1 ==> t[j] == s[j + 1]);
        assert(t[i - 1] == s[i]);
        lemma_find_nl_exact(t, i - 1);
        assert(lines_of(t) == seq![strip_cr(t.take(i - 1))] + lines_of(t.skip(i)));
        assert(t.skip(i) =~= s.skip(i + 1));
        assert(lines_of(s) == seq![strip_cr(s.take(i))] + lines_of(s.skip(i + 1)));
        assert(is_filler_line(lines_of(s)[0]));
        assert(lines_of(s)[0] == strip_cr(s.take(i)));
        lemma_filler_strip_cr(s.take(i));
        assert(s.take(i)[0] == s[0]);
        lemma_filler_skip_space(s.take(i));
        assert(t.take(i - 1) =~= s.take(i).skip(1));
        lemma_filler_strip_cr(t.take(i - 1));
        assert(is_filler_line(strip_cr(t.take(i - 1))));
        assert(forall|k: int|
            0 <= k < lines_of(s.skip(i + 1)).len() ==> #[trigger] lines_of(s.skip(i + 1))[k]
                == lines_of(s)[k + 1]);
        assert(forall|k: int|
            1 <= k < lines_of(t).len() ==> #[trigger] lines_of(t)[k] == lines_of(
                s.skip(i + 1),
            )[k - 1]);
    }
}

/// Dropping a trailing whitespace character keeps every line filler.
proof fn lemma_all_filler_drop(s: Seq<char>)
    requires
        s.len() > 0,
        is_space(s[s.len() - 1]),
        forall|i: int| 0 <= i < lines_of(s).len() ==> is_filler_line(#[trigger] lines_of(s)[i]),
    ensures
        forall|i: int|
            0 <= i < lines_of(s.drop_last()).len() ==> is_filler_line(
                #[trigger] lines_of(s.drop_last())[i],
            ),
    decreases s.len(),
{
    lemma_find_nl_le(s);
    let i = find_nl(s);
    let n = s.len() as int;
    let t = s.drop_last();
    if n == 1 {
    } else if i == n {
        assert(lines_of(s) == seq![s]);
        assert(is_filler_line(lines_of(s)[0]));
        assert(forall|j: int| 0 <= j < t.len() ==> t[j] == s[j]);
        lemma_find_nl_exact(t, t.len() as int);
        assert(lines_of(t) == seq![t]);
        lemma_filler_drop_space(s);
    } else if i == n - 1 {
        assert(lines_of(s) == seq![strip_cr(s.take(i))] + lines_of(s.skip(i + 1)));
        assert(s.skip(i + 1).len() == 0);
        assert(t =~= s.take(i));
        if t.len() > 0 {
            lemma_find_nl_exact(t, t.len() as int);
            assert(lines_of(t) == seq![t]);
            assert(is_filler_line(lines_of(s)[0]));
            lemma_filler_strip_cr(s.take(i));
        }
    } else {
        let rest = s.skip(i + 1);
        assert(rest.len() > 0);
        assert(rest[rest.len() - 1] == s[n - 1]);
        assert(lines_of(s) == seq![strip_cr(s.take(i))] + lines_of(rest));
        assert(forall|k: int|
            0 <= k < lines_of(rest).len() ==> lines_of(rest)[k] == lines_of(s)[k + 1]);
        lemma_all_filler_drop(rest);
        assert(forall|j: int| 0 <= j < i ==> t[j] == s[j]);
        assert(t[i] == s[i]);
        lemma_find_nl_exact(t, i);
        assert(lines_of(t) == seq![strip_cr(t.take(i))] + lines_of(t.skip(i + 1)));
        assert(t.take(i) =~= s.take(i));
        assert(t.skip(i + 1) =~= rest.drop_last());
        assert(is_filler_line(lines_of(s)[0]));
        assert(forall|k: int|
            1 <= k < lines_of(t).len() ==> lines_of(t)[k] == lines_of(rest.drop_last())[k - 1]);
    }
}

/// Trimming a text all of whose lines are filler leaves only filler lines.
proof fn lemma_all_filler_trim(s: Seq<char>)
    requires
        forall|i: int| 0 <= i < lines_of(s).len() ==> is_filler_line(#[trigger] lines_of(s)[i]),
    ensures
        forall|i: int|
            0 <= i < lines_of(trim_spec(s)).len() ==> is_filler_line(
                #[trigger] lines_of(trim_spec(s))[i],
            ),
{
    lemma_all_filler_trim_start(s);
    lemma_all_filler_trim_end(trim_start_spec(s));
}

proof fn lemma_all_filler_trim_start(s: Seq<char>)
    requires
        forall|i: int| 0 <= i < lines_of(s).len() ==> is_filler_line(#[trigger] lines_of(s)[i]),
    ensures
        forall|i: int|
            0 <= i < lines_of(trim_start_spec(s)).len() ==> is_filler_line(
                #[trigger] lines_of(trim_start_spec(s))[i],
            ),
    decreases s.len(),
{
    if s.len() > 0 && is_space(s[0]) {
        lemma_all_filler_skip(s);
        lemma_all_filler_trim_start(s.skip(1));
        assert(trim_start_spec(s) == trim_start_spec(s.skip(1)));
    }
}

proof fn lemma_all_filler_trim_end(s: Seq<char>)
    requires
        forall|i: int| 0 <= i < lines_of(s).len() ==> is_filler_line(#[trigger] lines_of(s)[i]),
    ensures
        forall|i: int|
            0 <= i < lines_of(trim_end_spec(s)).len() ==> is_filler_line(
                #[trigger] lines_of(trim_end_spec(s))[i],
            ),
    decreases s.len(),
{
    if s.len() > 0 && is_space(s[s.len() - 1]) {
        lemma_all_filler_drop(s);
        lemma_all_filler_trim_end(s.drop_last());
        assert(trim_end_spec(s) == trim_end_spec(s.drop_last()));
    }
}

/// The trim of joined lines whose first line is not filler begins with a
/// first line that is not filler either.
proof fn lemma_trim_join_first_line(ls: Seq<Seq<char>>)
    requires
        ls.len() > 0,
        !is_filler_line(ls[0]),
        has_no_nl(ls[0]),
        trim_spec(join_lines(ls)).len() > 0,
    ensures
        lines_of(trim_spec(join_lines(ls))).len() > 0,
        !is_filler_line(lines_of(trim_spec(join_lines(ls)))[0]),
{
    let g = join_lines(ls);
    let o = trim_spec(g);
    let j0 = lemma_non_filler_has_mark(ls[0]);
    let tail: Seq<char> = if ls.len() == 1 {
        Seq::empty()
    } else {
        seq!['\n'] + join_lines(ls.skip(1))
    };
    assert(g == ls[0] + tail) by {
        if ls.len() == 1 {
            assert(ls[0] + Seq::<char>::empty() =~= ls[0]);
        } else {
            assert(ls[0] + seq!['\n'] + join_lines(ls.skip(1)) =~= ls[0] + (seq!['\n']
                + join_lines(ls.skip(1))));
        }
    }
    crate::text::lemma_trim_start_concat(ls[0], tail, j0);
    let a = trim_start_spec(ls[0]);
    let ka = crate::text::lemma_trim_start_suffix(ls[0]);
    crate::text::lemma_trim_start_head(ls[0]);
    assert(j0 >= ka);
    assert(a.len() > 0);
    assert(!is_space(a[0]));
    assert(forall|i: int| 0 <= i < a.len() ==> a[i] == ls[0][ka + i]);
    assert(forall|i: int| 0 <= i < a.len() ==> a[i] != '\n');
    let u = trim_start_spec(g);
    assert(u == a + tail);
    assert(o == trim_end_spec(u));
    crate::text::lemma_trim_end_prefix(u);
    crate::text::lemma_trim_end_cut(u);
    let m = o.len() as int;
    assert(m > 0);
    assert(!is_space(o[m - 1]));
    assert(forall|i: int| 0 <= i < m ==> o[i] == u[i]);
    assert(trim_spec(ls[0]) == trim_end_spec(a));
    if m <= a.len() {
        assert(forall|i: int| 0 <= i < m ==> o[i] == a[i]);
        assert(forall|i: int| 0 <= i < m ==> o[i] != '\n');
        lemma_find_nl_exact(o, m);
        assert(lines_of(o) == seq![o]);
        assert(forall|i: int| m <= i < a.len() ==> is_space(u[i]) && a[i] == u[i]);
        assert(o[m - 1] == a[m - 1]);
        crate::text::lemma_trim_end_exact(a, m);
        assert(trim_end_spec(a) =~= o);
        assert(trim_start_spec(o) == o);
        assert(trim_end_spec(o) == o);
        assert(trim_spec(o) == trim_spec(ls[0]));
        assert(!is_filler_line(o));
    } else {
        assert(ls.len() >= 2) by {
            if ls.len() == 1 {
                assert(u == a + Seq::<char>::empty());
                assert(a + Seq::<char>::empty() =~= a);
            }
        }
        assert(tail[0] == '\n');
        assert(u[a.len() as int] == '\n');
        assert(m != a.len() + 1) by {
            if m == a.len() + 1 {
                assert(o[m - 1] == u[a.len() as int]);
            }
        }
        assert(m > a.len() + 1);
        assert(forall|i: int| 0 <= i < a.len() ==> o[i] == a[i] && o[i] != '\n');
        assert(o[a.len() as int] == u[a.len() as int]);
        lemma_find_nl_exact(o, a.len() as int);
        assert(lines_of(o) == seq![strip_cr(o.take(a.len() as int))] + lines_of(
            o.skip(a.len() as int + 1),
        ));
        assert(o.take(a.len() as int) =~= a);
        assert(lines_of(o)[0] == strip_cr(a));
        lemma_filler_strip_cr(a);
        assert(trim_start_spec(a) == a);
        assert(trim_spec(a) == trim_spec(ls[0]));
        assert(!is_filler_line(a));
    }
}

/// Sanitizing an already-sanitized text changes nothing: the sanitizer is
/// idempotent for every raw text no non-final split line of which still
/// ends with a carriage return. (The first line of "x\r\r\ny" keeps a
/// trailing carriage return after the split; rejoining builds a new
/// carriage-return-newline pair that a second pass would remove.)
pub proof fn lemma_sanitize_idempotent(raw: Seq<char>)
    requires
        forall|i: int|
            0 <= i < lines_of(raw).len() - 1 ==> !ends_with_cr(#[trigger] lines_of(raw)[i]),
    ensures
        sanitize_spec(sanitize_spec(raw)) == sanitize_spec(raw),
{
    let ls = lines_of(raw);
    let kept = drop_filler(ls);
    let cleaned = join_lines(kept);
    let o = sanitize_spec(raw);
    let k = lemma_drop_filler_suffix(ls);
    lemma_lines_no_newline(raw);
    if trim_spec(cleaned).len() == 0 {
        assert(kept.len() == 0) by {
            if kept.len() > 0 {
                lemma_drop_filler_head(ls);
                let j = lemma_non_filler_has_mark(kept[0]);
                lemma_join_head_prefix(kept);
                assert(cleaned[j] == kept[0][j]);
                lemma_trim_keeps_mark(cleaned, j);
            }
        }
        assert(o == trim_spec(raw));
        assert(k == ls.len());
        assert(forall|i: int| 0 <= i < ls.len() ==> is_filler_line(#[trigger] ls[i]));
        lemma_all_filler_trim(raw);
        let ls2 = lines_of(o);
        let kept2 = drop_filler(ls2);
        let k2 = lemma_drop_filler_suffix(ls2);
        assert(kept2.len() == 0) by {
            if kept2.len() > 0 {
                lemma_drop_filler_head(ls2);
                assert(kept2[0] == ls2[k2]);
                assert(is_filler_line(ls2[k2]));
            }
        }
        assert(join_lines(kept2) == Seq::<char>::empty());
        assert(trim_spec(Seq::<char>::empty()).len() == 0);
        assert(sanitize_spec(o) == trim_spec(o));
        lemma_trim_idempotent(raw);
    } else {
        assert(o == trim_spec(cleaned));
        assert(kept.len() > 0) by {
            if kept.len() == 0 {
                assert(cleaned == Seq::<char>::empty());
                assert(trim_spec(Seq::<char>::empty()).len() == 0);
            }
        }
        lemma_drop_filler_head(ls);
        assert(forall|i: int| 0 <= i < kept.len() ==> #[trigger] kept[i] == ls[k + i]);
        assert(forall|i: int| 0 <= i < kept.len() ==> has_no_nl(#[trigger] kept[i]));
        assert(forall|i: int| 0 <= i < kept.len() - 1 ==> !ends_with_cr(#[trigger] kept[i]));
        lemma_join_no_crlf(kept);
        lemma_trim_no_crlf(cleaned);
        crate::text::lemma_trim_end_prefix(trim_start_spec(cleaned));
        assert(o == trim_end_spec(trim_start_spec(cleaned)));
        assert(o.len() > 0);
        assert(!is_space(o[o.len() - 1]));
        assert(o[o.len() - 1] != '\n');
        lemma_join_lines_of(o);
        lemma_trim_join_first_line(kept);
        let ls2 = lines_of(o);
        assert(drop_filler(ls2) == ls2);
        assert(join_lines(drop_filler(ls2)) == o);
        lemma_trim_idempotent(cleaned);
        assert(trim_spec(o) == o);
        assert(sanitize_spec(o) == o);
    }
}

/// When the first line of the raw text is filler, the sanitizer's result is
/// determined by the remaining lines alone: the dropped prefix never reaches
/// the output. And if stripping leaves nothing, the result falls back to the
/// trimmed raw text.
pub proof fn lemma_filler_first_line_dropped(raw: Seq<char>)
    requires
        lines_of(raw).len() > 0,
        is_filler_line(lines_of(raw)[0]),
    ensures
        drop_filler(lines_of(raw)) == drop_filler(lines_of(raw).skip(1)),
        trim_spec(join_lines(drop_filler(lines_of(raw)))).len() == 0 ==> sanitize_spec(raw)
            == trim_spec(raw),
{
}

/// The views of a vector of owned lines.
pub open spec fn line_views(v: Seq<String>) -> Seq<Seq<char>> {
    v.map_values(|l: String| l@)
}

fn find_nl_exec(s: &str) -> (j: usize)
    ensures
        j == find_nl(s@),
        j <= s@.len(),
{
    let n = s.unicode_len();
    let mut j: usize = 0;
    while j < n && s.get_char(j) != '\n'
        invariant
            j <= n,
            n == s@.len(),
            forall|i: int| 0 <= i < j ==> s@[i] != '\n',
        decreases n - j,
    {
        j = j + 1;
    }
    proof {
        lemma_find_nl_exact(s@, j as int);
    }
    j
}

/// Splits text into its lines, as `lines_of` describes them.
pub fn split_lines(s: &str) -> (r: Vec<String>)
    ensures
        line_views(r@) == lines_of(s@),
    decreases s@.len(),
{
    let n = s.unicode_len();
    if n == 0 {
        let r: Vec<String> = Vec::new();
        proof {
            assert(line_views(r@) =~= lines_of(s@));
        }
        return r;
    }
    let j = find_nl_exec(s);
    if j == n {
        let mut r: Vec<String> = Vec::new();
        r.push(String::from_str(s));
        proof {
            assert(line_views(r@) =~= lines_of(s@));
        }
        return r;
    }
    let head = if j > 0 && s.get_char(j - 1) == '\r' {
        s.substring_char(0, j - 1)
    } else {
        s.substring_char(0, j)
    };
    proof {
        assert(s@.subrange(0, j as int) =~= s@.take(j as int));
        if j > 0 && s@[j - 1] == '\r' {
            assert(s@.subrange(0, j - 1) =~= strip_cr(s@.take(j as int)));
        }
    }
    let rest = s.substring_char(j + 1, n);
    proof {
        assert(rest@ =~= s@.skip(j + 1));
    }
    let mut r = split_lines(rest);
    r.insert(0, String::from_str(head));
    proof {
        assert(line_views(r@) =~= lines_of(s@));
    }
    r
}

/// Whether a line is filler, as `is_filler_line` describes it.
pub fn is_filler_exec(line: &str) -> (r: bool)
    ensures
        r == is_filler_line(line@),
{
    let (a, b) = crate::text::trim_bounds(line);
    proof {
        assert(lower_seq(trim_spec(line@)) == lower_seq(
            line@.subrange(a as int, b as int),
        ));
    }
    if b == a {
        return true;
    }
    if crate::text::range_starts_with_lower(line, a, b, "here is") {
        return true;
    }
    if crate::text::range_starts_with_lower(line, a, b, "sure") {
        return true;
    }
    if crate::text::range_starts_with_lower(line, a, b, "output") {
        return true;
    }
    if crate::text::range_eq_lower(line, a, b, "fixed text:") {
        return true;
    }
    false
}

proof fn lemma_drop_filler_exact(ls: Seq<Seq<char>>, k: int)
    requires
        0 <= k <= ls.len(),
        forall|i: int| 0 <= i < k ==> is_filler_line(ls[i]),
        k == ls.len() || !is_filler_line(ls[k]),
    ensures
        drop_filler(ls) == ls.skip(k),
    decreases k,
{
    if k == 0 {
        assert(ls.skip(0) =~= ls);
    } else {
        assert(is_filler_line(ls[0]));
        assert(forall|i: int| 0 <= i < k - 1 ==> ls.skip(1)[i] == ls[i + 1]);
        lemma_drop_filler_exact(ls.skip(1), k - 1);
        assert(ls.skip(1).skip(k - 1) =~= ls.skip(k));
    }
}

/// Index of the first line that is not filler, or the number of lines.
fn first_kept(v: &Vec<String>) -> (k: usize)
    ensures
        k <= v@.len(),
        drop_filler(line_views(v@)) == line_views(v@).skip(k as int),
{
    let mut k: usize = 0;
    while k < v.len() && is_filler_exec(v[k].as_str())
        invariant
            k <= v@.len(),
            forall|i: int| 0 <= i < k ==> is_filler_line(line_views(v@)[i]),
        decreases v@.len() - k,
    {
        k = k + 1;
    }
    proof {
        lemma_drop_filler_exact(line_views(v@), k as int);
    }
    k
}

/// The lines from index `k` on, joined with single newlines.
fn join_from(v: &Vec<String>, k: usize) -> (r: String)
    requires
        k <= v@.len(),
    ensures
        r@ == join_lines(line_views(v@).skip(k as int)),
    decreases v@.len() - k,
{
    if k == v.len() {
        let r = String::new();
        proof {
            assert(line_views(v@).skip(k as int).len() == 0);
        }
        return r;
    }
    if k + 1 == v.len() {
        let r = v[k].clone();
        proof {
            assert(line_views(v@).skip(k as int).len() == 1);
            assert(line_views(v@).skip(k as int)[0] == v@[k as int]@);
        }
        return r;
    }
    let mut r = v[k].clone();
    r.append("\n");
    let tail = join_from(v, k + 1);
    r.append(tail.as_str());
    proof {
        reveal_strlit("\n");
        let ls = line_views(v@).skip(k as int);
        assert(ls[0] == v@[k as int]@);
        assert(ls.skip(1) =~= line_views(v@).skip(k + 1));
        assert(r@ == ls[0] + seq!['\n'] + join_lines(ls.skip(1)));
    }
    r
}

/// Strips leading filler lines from a raw model response, falling back to
/// the raw text when stripping would leave nothing; the result is trimmed.
pub fn sanitize(raw: &str) -> (r: String)
    ensures
        r@ == sanitize_spec(raw@),
{
    let lines = split_lines(raw);
    let k = first_kept(&lines);
    let cleaned = join_from(&lines, k);
    let trimmed = trim_str(cleaned.as_str());
    if trimmed.unicode_len() == 0 {
        String::from_str(trim_str(raw))
    } else {
        String::from_str(trimmed)
    }
}

} // verus!
