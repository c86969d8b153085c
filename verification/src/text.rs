//! A model of text as sequences of characters, with the string operations
//! that the configuration logic needs.
use vstd::prelude::*;

verus! {

/// `String::push`: appends one character to the end of the string.
#[verifier::external_body]
fn push_char(s: &mut String, c: char)
    ensures
        final(s)@ == old(s)@.push(c),
{
    s.push(c);
}

/// The characters of `s`, in order.
pub fn chars_of(s: &str) -> (v: Vec<char>)
    ensures
        v@ == s@,
{
    let mut v: Vec<char> = Vec::new();
    let mut it = s.chars();
    loop
        invariant
            vstd::std_specs::iter::IteratorSpec::obeys_prophetic_iter_laws(&it),
            v@ + vstd::std_specs::iter::IteratorSpec::remaining(&it) == s@,
        ensures
            v@ == s@,
        decreases s@.len() - v@.len(),
    {
        match it.next() {
            Some(c) => {
                v.push(c);
            },
            None => {
                break;
            },
        }
    }
    v
}

/// The string made of the characters of `v`, in order.
pub fn string_of(v: &Vec<char>) -> (s: String)
    ensures
        s@ == v@,
{
    let mut s = String::new();
    let mut i: usize = 0;
    while i < v.len()
        invariant
            i <= v.len(),
            s@ == v@.take(i as int),
        decreases v.len() - i,
    {
        push_char(&mut s, v[i]);
        i += 1;
        assert(v@.take(i as int) == v@.take(i - 1).push(v@[i - 1]));
    }
    assert(v@.take(v.len() as int) == v@);
    s
}

} // verus!

verus! {

/// The text of an optional string.
pub open spec fn opt_view(o: Option<String>) -> Option<Seq<char>> {
    match o {
        Some(s) => Some(s@),
        None => None,
    }
}

/// The text of an optional string, or `default` when there is none.
pub open spec fn text_or(o: Option<String>, default: Seq<char>) -> Seq<char> {
    match o {
        Some(s) => s@,
        None => default,
    }
}

/// The sequences that a vector of character vectors holds.
pub open spec fn views(v: Seq<Vec<char>>) -> Seq<Seq<char>> {
    v.map_values(|x: Vec<char>| x@)
}

/// `n` occurs in `s` starting at position `i`.
pub open spec fn occurs_at(s: Seq<char>, n: Seq<char>, i: int) -> bool {
    0 <= i && i + n.len() <= s.len() && s.subrange(i, i + n.len()) == n
}

/// `n` is a substring of `s` (what `str::contains` decides for a string pattern).
pub open spec fn contains(s: Seq<char>, n: Seq<char>) -> bool {
    exists|i: int| #[trigger] occurs_at(s, n, i)
}

/// The first position at or after `k` where `n` occurs in `s`, or `-1` if there is none.
pub open spec fn find_from(s: Seq<char>, n: Seq<char>, k: int) -> int
    decreases s.len() + 1 - k,
{
    if k < 0 || k + n.len() > s.len() {
        -1
    } else if occurs_at(s, n, k) {
        k
    } else {
        find_from(s, n, k + 1)
    }
}

pub proof fn lemma_find_from(s: Seq<char>, n: Seq<char>, k: int)
    requires
        0 <= k,
    ensures
        find_from(s, n, k) == -1 || (k <= find_from(s, n, k) && occurs_at(s, n, find_from(s, n, k))),
        find_from(s, n, k) == -1 ==> forall|j: int| k <= j ==> !#[trigger] occurs_at(s, n, j),
        forall|j: int| k <= j < find_from(s, n, k) ==> !#[trigger] occurs_at(s, n, j),
    decreases s.len() + 1 - k,
{
    if k + n.len() > s.len() {
    } else if occurs_at(s, n, k) {
    } else {
        lemma_find_from(s, n, k + 1);
        assert forall|j: int| k <= j < find_from(s, n, k) implies !#[trigger] occurs_at(s, n, j) by {
            if j > k {
            }
        }
    }
}

} // verus!

verus! {

/// Whether `needle` occurs in `hay` at position `i`.
fn matches_at(hay: &Vec<char>, needle: &Vec<char>, i: usize) -> (r: bool)
    requires
        i + needle@.len() <= hay@.len(),
    ensures
        r == occurs_at(hay@, needle@, i as int),
{
    let hay_len = hay.len();
    let mut j: usize = 0;
    while j < needle.len()
        invariant
            hay_len == hay@.len(),
            i + needle@.len() <= hay@.len(),
            j <= needle@.len(),
            forall|k: int| 0 <= k < j ==> hay@[i + k] == needle@[k],
        decreases needle@.len() - j,
    {
        assert(i + j < hay@.len());
        if hay[i + j] != needle[j] {
            assert(hay@.subrange(i as int, i + needle@.len())[j as int] != needle@[j as int]);
            return false;
        }
        j += 1;
    }
    assert(hay@.subrange(i as int, i + needle@.len()) =~= needle@);
    true
}

/// The first position at or after `k` where `needle` occurs in `hay`.
pub fn find_chars_from(hay: &Vec<char>, needle: &Vec<char>, k: usize) -> (r: Option<usize>)
    ensures
        match r {
            Some(i) => i == find_from(hay@, needle@, k as int),
            None => find_from(hay@, needle@, k as int) == -1,
        },
{
    if needle.len() > hay.len() || k > hay.len() - needle.len() {
        return None;
    }
    let last = hay.len() - needle.len();
    let mut i = k;
    loop
        invariant
            k <= i <= last,
            last + needle@.len() == hay@.len(),
            find_from(hay@, needle@, k as int) == find_from(hay@, needle@, i as int),
        decreases last - i,
    {
        if matches_at(hay, needle, i) {
            return Some(i);
        }
        if i == last {
            assert(find_from(hay@, needle@, i + 1) == -1);
            return None;
        }
        i += 1;
    }
}

/// Whether `needle` is a substring of `hay`.
pub fn contains_chars(hay: &Vec<char>, needle: &Vec<char>) -> (r: bool)
    ensures
        r == contains(hay@, needle@),
{
    proof {
        lemma_find_from(hay@, needle@, 0);
    }
    match find_chars_from(hay, needle, 0) {
        Some(_) => true,
        None => false,
    }
}

/// The pieces of `s` from position `start` on, cut at each occurrence of
/// `sep` found from left to right (what `str::split` yields for a non-empty
/// string pattern).
pub open spec fn split_from(s: Seq<char>, sep: Seq<char>, start: int) -> Seq<Seq<char>>
    decreases s.len() + 1 - start,
{
    if start < 0 || start > s.len() || sep.len() == 0 {
        seq![]
    } else {
        let i = find_from(s, sep, start);
        proof {
            lemma_find_from(s, sep, start);
        }
        if i < start {
            seq![s.subrange(start, s.len() as int)]
        } else {
            seq![s.subrange(start, i)] + split_from(s, sep, i + sep.len())
        }
    }
}

/// `str::split` with a non-empty pattern.
pub open spec fn split(s: Seq<char>, sep: Seq<char>) -> Seq<Seq<char>> {
    split_from(s, sep, 0)
}

/// The pieces of `s` cut at each occurrence of `sep`.
pub fn split_chars(s: &Vec<char>, sep: &Vec<char>) -> (r: Vec<Vec<char>>)
    requires
        sep@.len() > 0,
    ensures
        views(r@) == split(s@, sep@),
{
    let mut r: Vec<Vec<char>> = Vec::new();
    let mut start: usize = 0;
    let s_len = s.len();
    loop
        invariant
            s_len == s@.len(),
            sep@.len() > 0,
            start <= s@.len(),
            views(r@) + split_from(s@, sep@, start as int) == split(s@, sep@),
        decreases s@.len() - start,
    {
        proof {
            lemma_find_from(s@, sep@, start as int);
        }
        match find_chars_from(s, sep, start) {
            Some(i) => {
                assert(occurs_at(s@, sep@, i as int));
                let piece = slice_chars(s, start, i);
                proof {
                    assert(views(r@.push(piece)) == views(r@).push(piece@));
                    assert(split_from(s@, sep@, start as int) == seq![piece@] + split_from(
                        s@,
                        sep@,
                        i + sep@.len(),
                    ));
                    assert(views(r@.push(piece)) + split_from(s@, sep@, i + sep@.len()) == views(
                        r@,
                    ) + split_from(s@, sep@, start as int));
                }
                r.push(piece);
                start = i + sep.len();
            },
            None => {
                let piece = slice_chars(s, start, s.len());
                proof {
                    assert(views(r@.push(piece)) == views(r@).push(piece@));
                    assert(split_from(s@, sep@, start as int) == seq![piece@]);
                }
                r.push(piece);
                return r;
            },
        }
    }
}

/// The characters of `s` from position `from` up to, not including, `to`.
pub fn slice_chars(s: &Vec<char>, from: usize, to: usize) -> (r: Vec<char>)
    requires
        from <= to <= s@.len(),
    ensures
        r@ == s@.subrange(from as int, to as int),
{
    let mut r: Vec<char> = Vec::new();
    let mut i = from;
    while i < to
        invariant
            from <= i <= to <= s@.len(),
            r@ == s@.subrange(from as int, i as int),
        decreases to - i,
    {
        r.push(s[i]);
        i += 1;
        assert(r@ =~= s@.subrange(from as int, i as int));
    }
    r
}

} // verus!

verus! {

/// A substring of a part is a substring of the whole.
pub proof fn lemma_contains_append(a: Seq<char>, b: Seq<char>, n: Seq<char>)
    ensures
        contains(a, n) ==> contains(a + b, n),
        contains(b, n) ==> contains(a + b, n),
{
    if contains(a, n) {
        let i = choose|i: int| occurs_at(a, n, i);
        assert((a + b).subrange(i, i + n.len()) =~= a.subrange(i, i + n.len()));
        assert(occurs_at(a + b, n, i));
    }
    if contains(b, n) {
        let i = choose|i: int| occurs_at(b, n, i);
        assert((a + b).subrange(a.len() + i, a.len() + i + n.len()) =~= b.subrange(i, i + n.len()));
        assert(occurs_at(a + b, n, a.len() + i));
    }
}

/// Whoever contains `n + rest` contains `n`.
pub proof fn lemma_contains_shorter(s: Seq<char>, n: Seq<char>, rest: Seq<char>)
    requires
        contains(s, n + rest),
    ensures
        contains(s, n),
{
    let i = choose|i: int| occurs_at(s, n + rest, i);
    let big = s.subrange(i, i + (n + rest).len());
    assert(big == n + rest);
    assert(s.subrange(i, i + n.len()) =~= big.subrange(0, n.len() as int));
    assert(big.subrange(0, n.len() as int) =~= n);
    assert(occurs_at(s, n, i));
}

/// `s` holds no line terminator.
pub open spec fn no_newline(s: Seq<char>) -> bool {
    forall|i: int| 0 <= i < s.len() ==> #[trigger] s[i] != '\n'
}

/// A pattern without a line terminator that occurs in `a + "\n" + b` occurs in `a` or in `b`.
pub proof fn lemma_contains_across_newline(a: Seq<char>, b: Seq<char>, n: Seq<char>)
    requires
        no_newline(n),
        contains(a + seq!['\n'] + b, n),
    ensures
        contains(a, n) || contains(b, n),
{
    let s = a + seq!['\n'] + b;
    let i = choose|i: int| occurs_at(s, n, i);
    if i + n.len() <= a.len() {
        assert(a.subrange(i, i + n.len()) =~= s.subrange(i, i + n.len()));
        assert(occurs_at(a, n, i));
    } else if i >= a.len() + 1 {
        let j = i - a.len() - 1;
        assert(b.subrange(j, j + n.len()) =~= s.subrange(i, i + n.len()));
        assert(occurs_at(b, n, j));
    } else {
        let k = a.len() - i;
        assert(s.subrange(i, i + n.len())[k] == s[a.len() as int]);
        assert(n[k] == '\n');
    }
}

} // verus!

verus! {

/// Text with `n` in the middle contains `n`.
pub proof fn lemma_contains_middle(a: Seq<char>, n: Seq<char>, b: Seq<char>)
    ensures
        contains(a + n + b, n),
{
    assert((a + n + b).subrange(a.len() as int, (a.len() + n.len()) as int) =~= n);
    assert(occurs_at(a + n + b, n, a.len() as int));
}

} // verus!

verus! {

/// Whether `a` and `b` hold the same characters.
pub fn same_chars(a: &Vec<char>, b: &Vec<char>) -> (r: bool)
    ensures
        r == (a@ == b@),
{
    if a.len() != b.len() {
        return false;
    }
    let mut i: usize = 0;
    while i < a.len()
        invariant
            a@.len() == b@.len(),
            i <= a@.len(),
            forall|k: int| 0 <= k < i ==> a@[k] == b@[k],
        decreases a@.len() - i,
    {
        if a[i] != b[i] {
            return false;
        }
        i += 1;
    }
    assert(a@ =~= b@);
    true
}

/// Whether the string `s` is the literal `lit`.
pub fn is_literal(s: &String, lit: &str) -> (r: bool)
    ensures
        r == (s@ == lit@),
{
    same_chars(&chars_of(s.as_str()), &chars_of(lit))
}

} // verus!

verus! {

/// `char::is_whitespace`: the characters with the Unicode `White_Space` property.
pub open spec fn is_whitespace(c: char) -> bool {
    let v = c as u32;
    ||| 9 <= v <= 13
    ||| v == 32
    ||| v == 0x85
    ||| v == 0xA0
    ||| v == 0x1680
    ||| 0x2000 <= v <= 0x200A
    ||| v == 0x2028
    ||| v == 0x2029
    ||| v == 0x202F
    ||| v == 0x205F
    ||| v == 0x3000
}

fn is_whitespace_char(c: char) -> (r: bool)
    ensures
        r == is_whitespace(c),
{
    let v = c as u32;
    (9 <= v && v <= 13) || v == 32 || v == 0x85 || v == 0xA0 || v == 0x1680 || (0x2000 <= v && v
        <= 0x200A) || v == 0x2028 || v == 0x2029 || v == 0x202F || v == 0x205F || v == 0x3000
}

/// `s` without its leading whitespace.
pub open spec fn trim_start(s: Seq<char>) -> Seq<char>
    decreases s.len(),
{
    if s.len() > 0 && is_whitespace(s[0]) {
        trim_start(s.drop_first())
    } else {
        s
    }
}

/// `s` without its trailing whitespace.
pub open spec fn trim_end(s: Seq<char>) -> Seq<char>
    decreases s.len(),
{
    if s.len() > 0 && is_whitespace(s.last()) {
        trim_end(s.drop_last())
    } else {
        s
    }
}

/// `str::trim`: `s` without leading and trailing whitespace.
pub open spec fn trim(s: Seq<char>) -> Seq<char> {
    trim_end(trim_start(s))
}

/// `s` without leading and trailing whitespace.
pub fn trim_chars(s: &Vec<char>) -> (r: Vec<char>)
    ensures
        r@ == trim(s@),
{
    let n = s.len();
    let mut i: usize = 0;
    assert(s@.subrange(0, n as int) =~= s@);
    while i < n && is_whitespace_char(s[i])
        invariant
            n == s@.len(),
            i <= n,
            trim_start(s@) == trim_start(s@.subrange(i as int, n as int)),
        decreases n - i,
    {
        assert(s@.subrange(i as int, n as int).drop_first() =~= s@.subrange(i + 1, n as int));
        i += 1;
    }
    let ghost t = s@.subrange(i as int, n as int);
    assert(trim_start(t) == t);
    let mut j: usize = n;
    assert(t =~= s@.subrange(i as int, j as int));
    while j > i && is_whitespace_char(s[j - 1])
        invariant
            n == s@.len(),
            i <= j <= n,
            t == s@.subrange(i as int, n as int),
            trim_start(s@) == t,
            trim_end(t) == trim_end(s@.subrange(i as int, j as int)),
        decreases j,
    {
        assert(s@.subrange(i as int, j as int).drop_last() =~= s@.subrange(i as int, j - 1));
        j -= 1;
    }
    slice_chars(s, i, j)
}

} // verus!

verus! {

/// Whoever contains `a + n` contains `n`.
pub proof fn lemma_contains_suffix(s: Seq<char>, a: Seq<char>, n: Seq<char>)
    requires
        contains(s, a + n),
    ensures
        contains(s, n),
{
    let i = choose|i: int| occurs_at(s, a + n, i);
    let big = s.subrange(i, i + (a + n).len());
    assert(big == a + n);
    assert(s.subrange(i + a.len(), i + a.len() + n.len()) =~= big.subrange(
        a.len() as int,
        (a + n).len() as int,
    ));
    assert(big.subrange(a.len() as int, (a + n).len() as int) =~= n);
    assert(occurs_at(s, n, i + a.len()));
}

} // verus!
