//! Line structure of text: `str::lines`, joining with `"\n"`, and dropping
//! the lines that mention given patterns.
use vstd::prelude::*;
use crate::text::{
    contains, contains_chars, find_chars_from, find_from, lemma_find_from, occurs_at, slice_chars,
    views,
};

verus! {

/// The line terminator.
pub open spec fn newline() -> Seq<char> {
    seq!['\n']
}

/// A line with one trailing carriage return removed, if it has one.
pub open spec fn strip_cr(l: Seq<char>) -> Seq<char> {
    if l.len() > 0 && l.last() == '\r' {
        l.drop_last()
    } else {
        l
    }
}

/// The lines of `s` from position `start` on, as `str::lines` yields them:
/// a line ends at `'\n'` (a `'\r'` just before it is dropped too), and the
/// last line may lack its terminator.
pub open spec fn lines_from(s: Seq<char>, start: int) -> Seq<Seq<char>>
    decreases s.len() + 1 - start,
{
    if start < 0 || start >= s.len() {
        seq![]
    } else {
        let i = find_from(s, newline(), start);
        proof {
            lemma_find_from(s, newline(), start);
        }
        if i < start {
            seq![s.subrange(start, s.len() as int)]
        } else {
            seq![strip_cr(s.subrange(start, i))] + lines_from(s, i + 1)
        }
    }
}

/// `str::lines`.
pub open spec fn lines(s: Seq<char>) -> Seq<Seq<char>> {
    lines_from(s, 0)
}

/// The lines of `s`.
pub fn split_lines(s: &Vec<char>) -> (r: Vec<Vec<char>>)
    ensures
        views(r@) == lines(s@),
{
    let nl: Vec<char> = vec!['\n'];
    assert(nl@ == newline());
    let mut r: Vec<Vec<char>> = Vec::new();
    let mut start: usize = 0;
    let s_len = s.len();
    while start < s_len
        invariant
            nl@ == newline(),
            s_len == s@.len(),
            start <= s@.len(),
            views(r@) + lines_from(s@, start as int) == lines(s@),
        decreases s@.len() - start,
    {
        proof {
            lemma_find_from(s@, newline(), start as int);
        }
        match find_chars_from(s, &nl, start) {
            Some(i) => {
                assert(occurs_at(s@, newline(), i as int));
                let mut end = i;
                if end > start && s[end - 1] == '\r' {
                    end = end - 1;
                }
                let piece = slice_chars(s, start, end);
                proof {
                    let whole = s@.subrange(start as int, i as int);
                    assert(piece@ == strip_cr(whole)) by {
                        if i > start && s@[i - 1] == '\r' {
                            assert(whole.last() == '\r');
                            assert(piece@ =~= whole.drop_last());
                        }
                    }
                    assert(views(r@.push(piece)) == views(r@).push(piece@));
                    assert(lines_from(s@, start as int) == seq![piece@] + lines_from(
                        s@,
                        i + 1,
                    ));
                    assert(views(r@.push(piece)) + lines_from(s@, i + 1) == views(r@)
                        + lines_from(s@, start as int));
                }
                r.push(piece);
                start = i + 1;
            },
            None => {
                let piece = slice_chars(s, start, s_len);
                proof {
                    assert(views(r@.push(piece)) == views(r@).push(piece@));
                    assert(lines_from(s@, start as int) == seq![piece@]);
                    assert(lines_from(s@, s@.len() as int) == Seq::<Seq<char>>::empty());
                    assert(views(r@.push(piece)) =~= views(r@.push(piece)) + lines_from(
                        s@,
                        s@.len() as int,
                    ));
                }
                r.push(piece);
                start = s_len;
            },
        }
    }
    assert(lines_from(s@, start as int) == Seq::<Seq<char>>::empty());
    assert(views(r@) =~= views(r@) + lines_from(s@, start as int));
    r
}

} // verus!

verus! {

/// The lines of `ls` joined with `sep` between neighbours (`[..].join(sep)`).
pub open spec fn join(ls: Seq<Seq<char>>, sep: Seq<char>) -> Seq<char>
    decreases ls.len(),
{
    if ls.len() == 0 {
        seq![]
    } else if ls.len() == 1 {
        ls[0]
    } else {
        join(ls.drop_last(), sep) + sep + ls.last()
    }
}

/// `l` contains at least one of `pats`.
pub open spec fn mentions_any(l: Seq<char>, pats: Seq<Seq<char>>) -> bool {
    exists|j: int| 0 <= j < pats.len() && contains(l, #[trigger] pats[j])
}

/// The lines of `ls` that mention none of `pats`, in their order.
pub open spec fn kept_lines(ls: Seq<Seq<char>>, pats: Seq<Seq<char>>) -> Seq<Seq<char>>
    decreases ls.len(),
{
    if ls.len() == 0 {
        ls
    } else if mentions_any(ls.last(), pats) {
        kept_lines(ls.drop_last(), pats)
    } else {
        kept_lines(ls.drop_last(), pats).push(ls.last())
    }
}

/// `content` with every line that mentions one of `pats` removed, the
/// remaining lines joined with `"\n"` (no terminator after the last one).
pub open spec fn without_lines_mentioning(content: Seq<char>, pats: Seq<Seq<char>>) -> Seq<char> {
    join(kept_lines(lines(content), pats), newline())
}

/// Whether `line` contains one of `pats`.
pub fn mentions_any_chars(line: &Vec<char>, pats: &Vec<Vec<char>>) -> (r: bool)
    ensures
        r == mentions_any(line@, views(pats@)),
{
    let mut j: usize = 0;
    while j < pats.len()
        invariant
            j <= pats@.len(),
            forall|k: int| 0 <= k < j ==> !contains(line@, #[trigger] views(pats@)[k]),
        decreases pats@.len() - j,
    {
        if contains_chars(line, &pats[j]) {
            assert(contains(line@, views(pats@)[j as int]));
            return true;
        }
        j += 1;
    }
    false
}

proof fn lemma_join_push(ls: Seq<Seq<char>>, l: Seq<char>, sep: Seq<char>)
    ensures
        join(ls.push(l), sep) == if ls.len() == 0 {
            l
        } else {
            join(ls, sep) + sep + l
        },
{
    assert(ls.push(l).drop_last() =~= ls);
}

/// `content` with every line that mentions one of `pats` removed.
pub fn drop_lines_mentioning(content: &Vec<char>, pats: &Vec<Vec<char>>) -> (r: Vec<char>)
    ensures
        r@ == without_lines_mentioning(content@, views(pats@)),
{
    let ls = split_lines(content);
    let ghost all = views(ls@);
    let ghost p = views(pats@);
    let mut out: Vec<char> = Vec::new();
    let mut any_kept = false;
    let mut i: usize = 0;
    while i < ls.len()
        invariant
            all == views(ls@),
            all == lines(content@),
            p == views(pats@),
            i <= ls@.len(),
            out@ == join(kept_lines(all.take(i as int), p), newline()),
            any_kept == (kept_lines(all.take(i as int), p).len() > 0),
        decreases ls@.len() - i,
    {
        let line = &ls[i];
        assert(all.take(i + 1).drop_last() =~= all.take(i as int));
        assert(all.take(i + 1).last() == line@);
        if !mentions_any_chars(line, pats) {
            proof {
                lemma_join_push(kept_lines(all.take(i as int), p), line@, newline());
            }
            if any_kept {
                out.push('\n');
            }
            let mut k: usize = 0;
            let ghost before = out@;
            while k < line.len()
                invariant
                    k <= line@.len(),
                    out@ == before + line@.take(k as int),
                decreases line@.len() - k,
            {
                out.push(line[k]);
                k += 1;
                assert(out@ =~= before + line@.take(k as int));
            }
            assert(line@.take(line@.len() as int) =~= line@);
            proof {
                if any_kept {
                    assert(before == join(kept_lines(all.take(i as int), p), newline()) + newline());
                } else {
                    assert(before =~= Seq::<char>::empty());
                }
                assert(out@ =~= join(kept_lines(all.take(i + 1), p), newline()));
            }
            any_kept = true;
        }
        i += 1;
    }
    assert(all.take(ls@.len() as int) =~= all);
    out
}

} // verus!

verus! {

proof fn lemma_join_prepend(a: Seq<char>, rest: Seq<Seq<char>>, sep: Seq<char>)
    requires
        rest.len() > 0,
    ensures
        join(seq![a] + rest, sep) == a + sep + join(rest, sep),
    decreases rest.len(),
{
    let all = seq![a] + rest;
    if rest.len() == 1 {
        assert(all.drop_last() =~= seq![a]);
        assert(join(seq![a], sep) == a);
        assert(all.last() == rest[0]);
        assert(join(rest, sep) == rest[0]);
    } else {
        lemma_join_prepend(a, rest.drop_last(), sep);
        assert(all.drop_last() =~= seq![a] + rest.drop_last());
        assert(all.last() == rest.last());
        assert(join(all, sep) == join(all.drop_last(), sep) + sep + all.last());
        assert(join(rest, sep) == join(rest.drop_last(), sep) + sep + rest.last());
        assert(a + sep + join(rest, sep) =~= a + sep + join(rest.drop_last(), sep) + sep
            + rest.last());
    }
}

/// Joining the pieces of a split with the separator gives back the text.
pub proof fn lemma_split_from_join(s: Seq<char>, sep: Seq<char>, start: int)
    requires
        sep.len() > 0,
        0 <= start <= s.len(),
    ensures
        join(crate::text::split_from(s, sep, start), sep) == s.subrange(start, s.len() as int),
        crate::text::split_from(s, sep, start).len() > 0,
    decreases s.len() + 1 - start,
{
    lemma_find_from(s, sep, start);
    let i = find_from(s, sep, start);
    if i >= start {
        let rest = crate::text::split_from(s, sep, i + sep.len());
        lemma_split_from_join(s, sep, i + sep.len());
        lemma_join_prepend(s.subrange(start, i), rest, sep);
        assert(s.subrange(i, i + sep.len()) == sep);
        assert(s.subrange(start, i) + sep + s.subrange(i + sep.len(), s.len() as int)
            =~= s.subrange(start, s.len() as int));
    }
}

/// `str::split` followed by `join` with the same separator is the identity.
pub proof fn lemma_split_join(s: Seq<char>, sep: Seq<char>)
    requires
        sep.len() > 0,
    ensures
        join(crate::text::split(s, sep), sep) == s,
{
    lemma_split_from_join(s, sep, 0);
    assert(s.subrange(0, s.len() as int) =~= s);
}

} // verus!

verus! {

use crate::text::no_newline;

/// No line of `str::lines` holds a line terminator.
pub proof fn lemma_lines_from_no_newline(s: Seq<char>, start: int)
    ensures
        forall|j: int|
            0 <= j < lines_from(s, start).len() ==> no_newline(#[trigger] lines_from(s, start)[j]),
    decreases s.len() + 1 - start,
{
    if start < 0 || start >= s.len() {
    } else {
        let i = find_from(s, newline(), start);
        lemma_find_from(s, newline(), start);
        if i < start {
            let piece = s.subrange(start, s.len() as int);
            assert forall|k: int| 0 <= k < piece.len() implies #[trigger] piece[k] != '\n' by {
                if piece[k] == '\n' {
                    assert(s.subrange(start + k, start + k + 1) =~= newline());
                    assert(occurs_at(s, newline(), start + k));
                }
            }
            assert(lines_from(s, start) =~= seq![piece]);
        } else {
            let whole = s.subrange(start, i);
            assert forall|k: int| 0 <= k < whole.len() implies #[trigger] whole[k] != '\n' by {
                if whole[k] == '\n' {
                    assert(s.subrange(start + k, start + k + 1) =~= newline());
                    assert(occurs_at(s, newline(), start + k));
                }
            }
            let piece = strip_cr(whole);
            assert forall|k: int| 0 <= k < piece.len() implies #[trigger] piece[k] != '\n' by {
                assert(piece[k] == whole[k]);
            }
            lemma_lines_from_no_newline(s, i + 1);
            let rest = lines_from(s, i + 1);
            assert forall|j: int| 0 <= j < lines_from(s, start).len() implies no_newline(
                #[trigger] lines_from(s, start)[j],
            ) by {
                if j > 0 {
                    assert(lines_from(s, start)[j] == rest[j - 1]);
                } else {
                    assert(lines_from(s, start)[j] == piece);
                }
            }
        }
    }
}

/// Every kept line mentions none of the patterns and is one of the given lines.
pub proof fn lemma_kept_lines(ls: Seq<Seq<char>>, pats: Seq<Seq<char>>)
    ensures
        forall|j: int|
            0 <= j < kept_lines(ls, pats).len() ==> !mentions_any(
                #[trigger] kept_lines(ls, pats)[j],
                pats,
            ) && ls.contains(kept_lines(ls, pats)[j]),
    decreases ls.len(),
{
    if ls.len() > 0 {
        lemma_kept_lines(ls.drop_last(), pats);
        let k = kept_lines(ls.drop_last(), pats);
        assert forall|j: int| 0 <= j < kept_lines(ls, pats).len() implies !mentions_any(
            #[trigger] kept_lines(ls, pats)[j],
            pats,
        ) && ls.contains(kept_lines(ls, pats)[j]) by {
            if j < k.len() {
                assert(kept_lines(ls, pats)[j] == k[j]);
                let m = choose|m: int| 0 <= m < ls.drop_last().len() && ls.drop_last()[m] == k[j];
                assert(ls[m] == k[j]);
            } else {
                assert(kept_lines(ls, pats)[j] == ls.last());
                assert(ls[ls.len() - 1] == ls.last());
            }
        }
    }
}

/// A pattern without a line terminator that no line holds does not occur in
/// the lines joined with `"\n"`.
pub proof fn lemma_join_lacks(ls: Seq<Seq<char>>, n: Seq<char>)
    requires
        n.len() > 0,
        no_newline(n),
        forall|j: int| 0 <= j < ls.len() ==> !contains(#[trigger] ls[j], n),
    ensures
        !contains(join(ls, newline()), n),
    decreases ls.len(),
{
    if ls.len() == 0 {
        assert(forall|i: int| !occurs_at(Seq::<char>::empty(), n, i));
    } else if ls.len() == 1 {
        assert(!contains(ls[0], n));
    } else {
        let front = ls.drop_last();
        assert forall|j: int| 0 <= j < front.len() implies !contains(#[trigger] front[j], n) by {
            assert(front[j] == ls[j]);
        }
        lemma_join_lacks(front, n);
        assert(!contains(ls[ls.len() - 1], n));
        if contains(join(ls, newline()), n) {
            crate::text::lemma_contains_across_newline(join(front, newline()), ls.last(), n);
        }
    }
}

} // verus!

verus! {

/// After dropping the lines that mention the patterns, no pattern without a
/// line terminator occurs anywhere in the text.
pub proof fn lemma_without_lines_lacks(content: Seq<char>, pats: Seq<Seq<char>>, j: int)
    requires
        0 <= j < pats.len(),
        pats[j].len() > 0,
        no_newline(pats[j]),
    ensures
        !contains(without_lines_mentioning(content, pats), pats[j]),
{
    let ls = lines(content);
    let kept = kept_lines(ls, pats);
    lemma_lines_from_no_newline(content, 0);
    lemma_kept_lines(ls, pats);
    assert forall|k: int| 0 <= k < kept.len() implies !contains(#[trigger] kept[k], pats[j]) by {
        assert(!mentions_any(kept[k], pats));
    }
    lemma_join_lacks(kept, pats[j]);
}

} // verus!

verus! {

/// An occurrence that starts the search in `s` is found at the same place in `s + t`.
proof fn lemma_find_from_append_within(s: Seq<char>, t: Seq<char>, n: Seq<char>, k: int)
    requires
        0 <= k,
        find_from(s, n, k) >= 0,
    ensures
        find_from(s + t, n, k) == find_from(s, n, k),
    decreases s.len() + 1 - k,
{
    lemma_find_from(s, n, k);
    assert(k + n.len() <= s.len());
    assert((s + t).subrange(k, k + n.len()) =~= s.subrange(k, k + n.len()));
    if !occurs_at(s, n, k) {
        lemma_find_from_append_within(s, t, n, k + 1);
    }
}

/// Searching `a + t` past `a` is searching `t`.
pub proof fn lemma_find_from_shift(a: Seq<char>, t: Seq<char>, n: Seq<char>, j: int)
    requires
        0 <= j,
    ensures
        find_from(a + t, n, a.len() + j) == if find_from(t, n, j) < 0 {
            -1
        } else {
            a.len() + find_from(t, n, j)
        },
    decreases t.len() + 1 - j,
{
    lemma_find_from(t, n, j);
    if j + n.len() <= t.len() {
        assert((a + t).subrange(a.len() + j, a.len() + j + n.len()) =~= t.subrange(
            j,
            j + n.len(),
        ));
        if !occurs_at(t, n, j) {
            lemma_find_from_shift(a, t, n, j + 1);
        }
    }
}

/// The lines of `a + t` after `a` are the lines of `t`.
proof fn lemma_lines_from_shift(a: Seq<char>, t: Seq<char>, j: int)
    requires
        0 <= j,
    ensures
        lines_from(a + t, a.len() + j) == lines_from(t, j),
    decreases t.len() + 1 - j,
{
    if j < t.len() {
        lemma_find_from_shift(a, t, newline(), j);
        lemma_find_from(t, newline(), j);
        let i = find_from(t, newline(), j);
        if i < j {
            assert((a + t).subrange(a.len() + j, (a + t).len() as int) =~= t.subrange(
                j,
                t.len() as int,
            ));
        } else {
            assert((a + t).subrange(a.len() + j, a.len() + i) =~= t.subrange(j, i));
            lemma_lines_from_shift(a, t, i + 1);
        }
    }
}

/// Text that is empty or ends with a line terminator is the lines of its own:
/// the lines of `s + t` are those of `s` followed by those of `t`.
pub proof fn lemma_lines_append(s: Seq<char>, t: Seq<char>)
    requires
        s.len() == 0 || s.last() == '\n',
    ensures
        lines(s + t) == lines(s) + lines(t),
{
    lemma_lines_from_append(s, t, 0);
}

proof fn lemma_lines_from_append(s: Seq<char>, t: Seq<char>, k: int)
    requires
        s.len() == 0 || s.last() == '\n',
        0 <= k <= s.len(),
    ensures
        lines_from(s + t, k) == lines_from(s, k) + lines(t),
    decreases s.len() - k,
{
    if k == s.len() {
        lemma_lines_from_shift(s, t, 0);
        assert(lines_from(s, k) =~= Seq::<Seq<char>>::empty());
        assert(lines_from(s, k) + lines(t) =~= lines(t));
    } else {
        assert(s.subrange(s.len() - 1, s.len() as int) =~= newline());
        assert(occurs_at(s, newline(), s.len() - 1));
        lemma_find_from(s, newline(), k);
        let i = find_from(s, newline(), k);
        assert(i >= k);
        lemma_find_from_append_within(s, t, newline(), k);
        assert((s + t).subrange(k, i) =~= s.subrange(k, i));
        lemma_lines_from_append(s, t, i + 1);
        assert(lines_from(s + t, k) =~= seq![strip_cr(s.subrange(k, i))] + lines_from(
            s + t,
            i + 1,
        ));
        assert(lines_from(s, k) =~= seq![strip_cr(s.subrange(k, i))] + lines_from(s, i + 1));
        assert(lines_from(s + t, k) =~= lines_from(s, k) + lines(t));
    }
}

/// One terminated line has one line.
pub proof fn lemma_lines_one_terminated(x: Seq<char>)
    requires
        no_newline(x),
    ensures
        lines(x + newline()) == seq![strip_cr(x)],
{
    let s = x + newline();
    assert(s.subrange(x.len() as int, x.len() + 1 as int) =~= newline());
    assert(occurs_at(s, newline(), x.len() as int));
    lemma_find_from(s, newline(), 0);
    let i = find_from(s, newline(), 0);
    if i < x.len() {
        assert(s.subrange(i, i + 1)[0] == x[i]);
    }
    assert(i == x.len());
    assert(s.subrange(0, i) =~= x);
    assert(lines_from(s, i + 1) =~= Seq::<Seq<char>>::empty());
    assert(lines(s) =~= seq![strip_cr(x)] + lines_from(s, i + 1));
}

/// Keeping lines distributes over concatenation.
pub proof fn lemma_kept_append(a: Seq<Seq<char>>, b: Seq<Seq<char>>, pats: Seq<Seq<char>>)
    ensures
        kept_lines(a + b, pats) == kept_lines(a, pats) + kept_lines(b, pats),
    decreases b.len(),
{
    if b.len() == 0 {
        assert(a + b =~= a);
        assert(kept_lines(b, pats) =~= Seq::<Seq<char>>::empty());
        assert(kept_lines(a, pats) + kept_lines(b, pats) =~= kept_lines(a, pats));
    } else {
        lemma_kept_append(a, b.drop_last(), pats);
        assert((a + b).drop_last() =~= a + b.drop_last());
        assert((a + b).last() == b.last());
        if mentions_any(b.last(), pats) {
        } else {
            assert(kept_lines(a, pats) + kept_lines(b.drop_last(), pats).push(b.last())
                =~= (kept_lines(a, pats) + kept_lines(b.drop_last(), pats)).push(b.last()));
        }
    }
}

/// Lines that mention no pattern are all kept.
pub proof fn lemma_kept_all(ls: Seq<Seq<char>>, pats: Seq<Seq<char>>)
    requires
        forall|i: int| 0 <= i < ls.len() ==> !mentions_any(#[trigger] ls[i], pats),
    ensures
        kept_lines(ls, pats) == ls,
    decreases ls.len(),
{
    if ls.len() > 0 {
        assert(!mentions_any(ls[ls.len() - 1], pats));
        lemma_kept_all(ls.drop_last(), pats);
        assert(ls.drop_last().push(ls.last()) =~= ls);
    }
}

/// A line of `x` that holds `n` means that `x` holds `n`.
pub proof fn lemma_lines_from_within(x: Seq<char>, k: int, n: Seq<char>)
    ensures
        forall|j: int|
            0 <= j < lines_from(x, k).len() && contains(#[trigger] lines_from(x, k)[j], n)
                ==> contains(x, n),
    decreases x.len() + 1 - k,
{
    if 0 <= k < x.len() {
        lemma_find_from(x, newline(), k);
        let i = find_from(x, newline(), k);
        let end = if i < k {
            x.len() as int
        } else {
            i
        };
        let piece = x.subrange(k, end);
        let line = if i < k {
            piece
        } else {
            strip_cr(piece)
        };
        if contains(line, n) {
            let m = choose|m: int| occurs_at(line, n, m);
            assert(x.subrange(k + m, k + m + n.len()) =~= line.subrange(m, m + n.len()));
            assert(occurs_at(x, n, k + m));
        }
        if i >= k {
            lemma_lines_from_within(x, i + 1, n);
            assert forall|j: int|
                0 <= j < lines_from(x, k).len() && contains(#[trigger] lines_from(x, k)[j], n)
                    implies contains(x, n) by {
                if j > 0 {
                    assert(lines_from(x, k)[j] == lines_from(x, i + 1)[j - 1]);
                }
            }
        } else {
            assert(lines_from(x, k) =~= seq![line]);
        }
    }
}

/// Text without carriage returns, followed by a line terminator, is given back
/// by joining its lines with `"\n"`.
pub proof fn lemma_join_lines_terminated(s: Seq<char>)
    requires
        forall|i: int| 0 <= i < s.len() ==> #[trigger] s[i] != '\r',
    ensures
        join(lines(s + newline()), newline()) == s,
{
    let x = s + newline();
    lemma_join_lines_from(x, 0);
    assert(x.subrange(0, x.len() - 1) =~= s);
}

proof fn lemma_join_lines_from(x: Seq<char>, k: int)
    requires
        x.len() > 0,
        x.last() == '\n',
        forall|i: int| 0 <= i < x.len() ==> #[trigger] x[i] != '\r',
        0 <= k < x.len(),
    ensures
        join(lines_from(x, k), newline()) == x.subrange(k, x.len() - 1),
        lines_from(x, k).len() > 0,
    decreases x.len() - k,
{
    assert(x.subrange(x.len() - 1, x.len() as int) =~= newline());
    assert(occurs_at(x, newline(), x.len() - 1));
    lemma_find_from(x, newline(), k);
    let i = find_from(x, newline(), k);
    let piece = x.subrange(k, i);
    assert(strip_cr(piece) == piece) by {
        if piece.len() > 0 {
            assert(piece.last() == x[i - 1]);
        }
    }
    assert(x.subrange(i, i + 1)[0] == x[i]);
    if i == x.len() - 1 {
        assert(lines_from(x, i + 1) =~= Seq::<Seq<char>>::empty());
        assert(lines_from(x, k) =~= seq![piece]);
    } else {
        lemma_join_lines_from(x, i + 1);
        let rest = lines_from(x, i + 1);
        assert(lines_from(x, k) =~= seq![piece] + rest);
        lemma_join_prepend(piece, rest, newline());
        assert(piece + newline() + x.subrange(i + 1, x.len() - 1) =~= x.subrange(k, x.len() - 1));
    }
}

} // verus!

verus! {

/// The lines `xs`, each followed by a line terminator.
pub open spec fn terminated(xs: Seq<Seq<char>>) -> Seq<char>
    decreases xs.len(),
{
    if xs.len() == 0 {
        seq![]
    } else {
        terminated(xs.drop_last()) + xs.last() + newline()
    }
}

/// Terminated lines that each mention a pattern are all dropped.
pub proof fn lemma_kept_terminated(xs: Seq<Seq<char>>, pats: Seq<Seq<char>>)
    requires
        forall|i: int|
            0 <= i < xs.len() ==> no_newline(#[trigger] xs[i]) && mentions_any(
                strip_cr(xs[i]),
                pats,
            ),
    ensures
        kept_lines(lines(terminated(xs)), pats) == Seq::<Seq<char>>::empty(),
        terminated(xs).len() == 0 || terminated(xs).last() == '\n',
    decreases xs.len(),
{
    if xs.len() == 0 {
        assert(lines(Seq::<char>::empty()) =~= Seq::<Seq<char>>::empty());
    } else {
        let front = xs.drop_last();
        assert forall|i: int| 0 <= i < front.len() implies no_newline(#[trigger] front[i])
            && mentions_any(strip_cr(front[i]), pats) by {
            assert(front[i] == xs[i]);
        }
        lemma_kept_terminated(front, pats);
        let t = terminated(front);
        let x = xs.last();
        assert(no_newline(xs[xs.len() - 1]) && mentions_any(strip_cr(xs[xs.len() - 1]), pats));
        assert(terminated(xs) =~= t + (x + newline()));
        lemma_lines_append(t, x + newline());
        lemma_lines_one_terminated(x);
        lemma_kept_append(lines(t), seq![strip_cr(x)], pats);
        assert(seq![strip_cr(x)].drop_last() =~= Seq::<Seq<char>>::empty());
        assert(seq![strip_cr(x)].last() == strip_cr(x));
        assert(x == xs[xs.len() - 1]);
        assert(mentions_any(strip_cr(x), pats));
        assert(kept_lines(Seq::<Seq<char>>::empty(), pats) =~= Seq::<Seq<char>>::empty());
        assert(kept_lines(seq![strip_cr(x)], pats) =~= Seq::<Seq<char>>::empty());
        assert(kept_lines(lines(terminated(xs)), pats) =~= Seq::<Seq<char>>::empty());
    }
}

/// Appending terminated lines that each mention a pattern to text that is
/// empty or ends with a line terminator, and mentions no pattern, then
/// dropping the lines that mention a pattern, leaves the lines of the text.
pub proof fn lemma_unset_appended(s: Seq<char>, xs: Seq<Seq<char>>, pats: Seq<Seq<char>>)
    requires
        s.len() == 0 || s.last() == '\n',
        forall|j: int| 0 <= j < pats.len() ==> !contains(s, #[trigger] pats[j]),
        forall|i: int|
            0 <= i < xs.len() ==> no_newline(#[trigger] xs[i]) && mentions_any(
                strip_cr(xs[i]),
                pats,
            ),
    ensures
        without_lines_mentioning(s + terminated(xs), pats) == join(lines(s), newline()),
{
    lemma_lines_append(s, terminated(xs));
    lemma_kept_terminated(xs, pats);
    lemma_kept_append(lines(s), lines(terminated(xs)), pats);
    let ls = lines(s);
    assert forall|i: int| 0 <= i < ls.len() implies !mentions_any(#[trigger] ls[i], pats) by {
        if mentions_any(ls[i], pats) {
            let j = choose|j: int| 0 <= j < pats.len() && contains(ls[i], #[trigger] pats[j]);
            lemma_lines_from_within(s, 0, pats[j]);
        }
    }
    lemma_kept_all(ls, pats);
    assert(ls + Seq::<Seq<char>>::empty() =~= ls);
}

/// Text without carriage returns that mentions no pattern, followed by a
/// line terminator and terminated lines that each mention a pattern, gives
/// back the text when the lines that mention a pattern are dropped.
pub proof fn lemma_unset_appended_after_newline(
    s: Seq<char>,
    xs: Seq<Seq<char>>,
    pats: Seq<Seq<char>>,
)
    requires
        forall|i: int| 0 <= i < s.len() ==> #[trigger] s[i] != '\r',
        forall|j: int|
            0 <= j < pats.len() ==> (#[trigger] pats[j]).len() > 0 && no_newline(pats[j])
                && !contains(s, pats[j]),
        forall|i: int|
            0 <= i < xs.len() ==> no_newline(#[trigger] xs[i]) && mentions_any(
                strip_cr(xs[i]),
                pats,
            ),
    ensures
        without_lines_mentioning(s + newline() + terminated(xs), pats) == s,
{
    let s1 = s + newline();
    assert forall|j: int| 0 <= j < pats.len() implies !contains(s1, #[trigger] pats[j]) by {
        if contains(s1, pats[j]) {
            assert(s1 =~= s + seq!['\n'] + Seq::<char>::empty());
            crate::text::lemma_contains_across_newline(s, Seq::<char>::empty(), pats[j]);
            assert(forall|m: int| !occurs_at(Seq::<char>::empty(), pats[j], m));
        }
    }
    lemma_unset_appended(s1, xs, pats);
    lemma_join_lines_terminated(s);
}

/// Text that starts with `p`, which does not end with a carriage return,
/// still contains `p` once a trailing carriage return is stripped.
pub proof fn lemma_strip_cr_keeps_prefix(p: Seq<char>, u: Seq<char>)
    requires
        p.len() > 0,
        p.last() != '\r',
    ensures
        contains(strip_cr(p + u), p),
{
    let x = p + u;
    if x.last() == '\r' {
        assert(u.len() > 0);
        assert(strip_cr(x) =~= p + u.drop_last());
        crate::text::lemma_contains_middle(Seq::<char>::empty(), p, u.drop_last());
        assert(Seq::<char>::empty() + p + u.drop_last() =~= p + u.drop_last());
    } else {
        crate::text::lemma_contains_middle(Seq::<char>::empty(), p, u);
        assert(Seq::<char>::empty() + p + u =~= x);
    }
}

} // verus!

verus! {

/// Terminating one more line appends it and a line terminator.
pub proof fn lemma_terminated_push(xs: Seq<Seq<char>>, x: Seq<char>)
    ensures
        terminated(xs.push(x)) == terminated(xs) + x + newline(),
{
    assert(xs.push(x).drop_last() =~= xs);
}

/// Text made of two parts without line terminators has none.
pub proof fn lemma_no_newline_concat(a: Seq<char>, b: Seq<char>)
    requires
        no_newline(a),
        no_newline(b),
    ensures
        no_newline(a + b),
{
    assert forall|i: int| 0 <= i < (a + b).len() implies #[trigger] (a + b)[i] != '\n' by {
        if i < a.len() {
            assert((a + b)[i] == a[i]);
        } else {
            assert((a + b)[i] == b[i - a.len()]);
        }
    }
}

} // verus!

verus! {

/// Keeping the lines that mention no pattern is filtering by any predicate
/// that says exactly that.
pub proof fn lemma_kept_is_filter(
    ls: Seq<Seq<char>>,
    pats: Seq<Seq<char>>,
    keep: spec_fn(Seq<char>) -> bool,
)
    requires
        forall|l: Seq<char>| #[trigger] keep(l) == !mentions_any(l, pats),
    ensures
        kept_lines(ls, pats) == ls.filter(keep),
    decreases ls.len(),
{
    reveal(Seq::filter);
    if ls.len() > 0 {
        lemma_kept_is_filter(ls.drop_last(), pats, keep);
        assert(keep(ls.last()) == !mentions_any(ls.last(), pats));
    }
}

} // verus!
