//! Second-pass enrichment: company-name normalisation and rating merge.

use vstd::prelude::*;
use crate::text::{
    drop_spaces, from_chars, is_space, lemma_trim_len, lemma_trimmed_idempotent, push_range,
    skip_spaces, to_chars, trim_end, trim_start, trimmed,
};

verus! {

/// Settings of an enrichment pass.
#[derive(Debug, Clone, Copy, PartialEq, Eq, Structural)]
pub struct EnricherConfig {
    /// Number of tabs that fetch in parallel.
    pub thread_count: usize,
}

/// An opening parenthesis, ASCII or full-width.
pub open spec fn is_open(c: char) -> bool {
    c == '(' || c == '\u{FF08}'
}

/// A closing parenthesis, ASCII or full-width.
pub open spec fn is_close(c: char) -> bool {
    c == ')' || c == '\u{FF09}'
}

/// Index of the first opening parenthesis of `s`, or `s.len()` if there is none.
pub open spec fn first_open(s: Seq<char>) -> int
    decreases s.len(),
{
    if s.len() == 0 || is_open(s[0]) {
        0
    } else {
        1 + first_open(s.drop_first())
    }
}

/// Index of the first closing parenthesis of `s`, or `s.len()` if there is none.
pub open spec fn first_close(s: Seq<char>) -> int
    decreases s.len(),
{
    if s.len() == 0 || is_close(s[0]) {
        0
    } else {
        1 + first_close(s.drop_first())
    }
}

/// `s` with every parenthetical group removed, scanning left to right: a group
/// runs from an opening parenthesis to the first closing one after it, and
/// takes the white space on both sides with it.
pub open spec fn strip_groups(s: Seq<char>) -> Seq<char>
    decreases s.len(),
{
    let q = first_open(s);
    if 0 <= q < s.len() {
        let rest = s.skip(q + 1);
        let r = first_close(rest);
        if 0 <= r < rest.len() {
            proof {
                lemma_trim_len(rest.skip(r + 1));
            }
            trim_end(s.take(q)) + strip_groups(trim_start(rest.skip(r + 1)))
        } else {
            s
        }
    } else {
        s
    }
}

/// The normal form of a company name: parenthetical groups removed, then
/// trimmed.
pub open spec fn normalized(name: Seq<char>) -> Seq<char> {
    trimmed(strip_groups(name))
}

/// Some opening parenthesis of `s` has a closing one after it.
pub open spec fn has_group(s: Seq<char>) -> bool {
    exists|i: int, j: int| 0 <= i < j < s.len() && is_open(#[trigger] s[i]) && is_close(#[trigger] s[j])
}

/// `first_open` is in range, no opening parenthesis stands before it, and
/// one stands at it unless it is the length.
proof fn lemma_first_open(s: Seq<char>)
    ensures
        0 <= first_open(s) <= s.len(),
        forall|i: int| 0 <= i < first_open(s) ==> !is_open(#[trigger] s[i]),
        first_open(s) < s.len() ==> is_open(s[first_open(s)]),
    decreases s.len(),
{
    if s.len() == 0 || is_open(s[0]) {
    } else {
        let t = s.drop_first();
        lemma_first_open(t);
        assert forall|i: int| 0 <= i < first_open(s) implies !is_open(#[trigger] s[i]) by {
            if i > 0 {
                assert(s[i] == t[i - 1]);
            }
        }
    }
}

/// `first_close` is in range, no closing parenthesis stands before it, and
/// one stands at it unless it is the length.
proof fn lemma_first_close(s: Seq<char>)
    ensures
        0 <= first_close(s) <= s.len(),
        forall|i: int| 0 <= i < first_close(s) ==> !is_close(#[trigger] s[i]),
        first_close(s) < s.len() ==> is_close(s[first_close(s)]),
    decreases s.len(),
{
    if s.len() == 0 || is_close(s[0]) {
    } else {
        let t = s.drop_first();
        lemma_first_close(t);
        assert forall|i: int| 0 <= i < first_close(s) implies !is_close(#[trigger] s[i]) by {
            if i > 0 {
                assert(s[i] == t[i - 1]);
            }
        }
    }
}

/// `first_open` is the index fixed by its two defining properties.
proof fn lemma_first_open_is(s: Seq<char>, q: int)
    requires
        0 <= q <= s.len(),
        forall|i: int| 0 <= i < q ==> !is_open(#[trigger] s[i]),
        q < s.len() ==> is_open(s[q]),
    ensures
        first_open(s) == q,
{
    lemma_first_open(s);
    let f = first_open(s);
    if f < q {
        assert(!is_open(s[f]));
    } else if q < f {
        assert(is_open(s[q]));
    }
}

/// `first_close` is the index fixed by its two defining properties.
proof fn lemma_first_close_is(s: Seq<char>, r: int)
    requires
        0 <= r <= s.len(),
        forall|i: int| 0 <= i < r ==> !is_close(#[trigger] s[i]),
        r < s.len() ==> is_close(s[r]),
    ensures
        first_close(s) == r,
{
    lemma_first_close(s);
    let f = first_close(s);
    if f < r {
        assert(!is_close(s[f]));
    } else if r < f {
        assert(is_close(s[r]));
    }
}

/// Dropping the first or the last character creates no group.
proof fn lemma_no_group_shrinks(s: Seq<char>)
    requires
        s.len() > 0,
        !has_group(s),
    ensures
        !has_group(s.drop_first()),
        !has_group(s.drop_last()),
{
    let a = s.drop_first();
    if has_group(a) {
        let (i, j) = choose|i: int, j: int|
            0 <= i < j < a.len() && is_open(#[trigger] a[i]) && is_close(#[trigger] a[j]);
        assert(is_open(s[i + 1]) && is_close(s[j + 1]));
    }
    let b = s.drop_last();
    if has_group(b) {
        let (i, j) = choose|i: int, j: int|
            0 <= i < j < b.len() && is_open(#[trigger] b[i]) && is_close(#[trigger] b[j]);
        assert(is_open(s[i]) && is_close(s[j]));
    }
}

/// Trimming creates no group.
proof fn lemma_trim_no_group(s: Seq<char>)
    requires
        !has_group(s),
    ensures
        !has_group(trim_start(s)),
        !has_group(trim_end(s)),
    decreases s.len(),
{
    if s.len() > 0 {
        lemma_no_group_shrinks(s);
        lemma_trim_no_group(s.drop_first());
        lemma_trim_no_group(s.drop_last());
    }
}

/// A text without a group is left as it is.
pub proof fn lemma_strip_fixed(s: Seq<char>)
    requires
        !has_group(s),
    ensures
        strip_groups(s) == s,
{
    lemma_first_open(s);
    let q = first_open(s);
    if q < s.len() {
        let rest = s.skip(q + 1);
        lemma_first_close(rest);
        let r = first_close(rest);
        if r < rest.len() {
            assert(is_open(s[q]) && is_close(s[q + 1 + r]));
        }
    }
}

/// What is left after the groups are removed holds no group.
pub proof fn lemma_strip_no_group(s: Seq<char>)
    ensures
        !has_group(strip_groups(s)),
    decreases s.len(),
{
    lemma_first_open(s);
    let q = first_open(s);
    if q < s.len() {
        let rest = s.skip(q + 1);
        lemma_first_close(rest);
        let r = first_close(rest);
        if r < rest.len() {
            let head = trim_end(s.take(q));
            let next = trim_start(rest.skip(r + 1));
            let tail = strip_groups(next);
            lemma_trim_len(rest.skip(r + 1));
            lemma_strip_no_group(next);
            lemma_no_open_trim_end(s.take(q));
            let out = head + tail;
            if has_group(out) {
                let (i, j) = choose|i: int, j: int|
                    0 <= i < j < out.len() && is_open(#[trigger] out[i]) && is_close(
                        #[trigger] out[j],
                    );
                if i < head.len() {
                    assert(out[i] == head[i]);
                } else {
                    assert(is_open(tail[i - head.len()]) && is_close(tail[j - head.len()]));
                }
            }
        } else {
            if has_group(s) {
                let (i, j) = choose|i: int, j: int|
                    0 <= i < j < s.len() && is_open(#[trigger] s[i]) && is_close(#[trigger] s[j]);
                if i < q {
                    assert(!is_open(s[i]));
                } else {
                    assert(rest[j - q - 1] == s[j]);
                }
            }
        }
    } else {
        if has_group(s) {
            let (i, j) = choose|i: int, j: int|
                0 <= i < j < s.len() && is_open(#[trigger] s[i]) && is_close(#[trigger] s[j]);
            assert(!is_open(s[i]));
        }
    }
}

/// Trimming the end of a text without an opening parenthesis leaves none.
proof fn lemma_no_open_trim_end(s: Seq<char>)
    requires
        forall|i: int| 0 <= i < s.len() ==> !is_open(#[trigger] s[i]),
    ensures
        forall|i: int| 0 <= i < trim_end(s).len() ==> !is_open(#[trigger] trim_end(s)[i]),
    decreases s.len(),
{
    if s.len() > 0 && is_space(s.last()) {
        let t = s.drop_last();
        assert forall|i: int| 0 <= i < t.len() implies !is_open(#[trigger] t[i]) by {
            assert(t[i] == s[i]);
        }
        lemma_no_open_trim_end(t);
        assert(trim_end(s) == trim_end(t));
    } else {
        assert(trim_end(s) == s);
    }
}

/// Normalising a company name twice gives what normalising it once gives.
pub proof fn lemma_normalize_idempotent(name: Seq<char>)
    ensures
        normalized(normalized(name)) == normalized(name),
{
    let stripped = strip_groups(name);
    lemma_strip_no_group(name);
    lemma_trim_no_group(stripped);
    lemma_trim_no_group(trim_start(stripped));
    lemma_strip_fixed(normalized(name));
    lemma_trimmed_idempotent(stripped);
}

fn is_open_char(c: char) -> (r: bool)
    ensures
        r == is_open(c),
{
    c == '(' || c == '\u{FF08}'
}

fn is_close_char(c: char) -> (r: bool)
    ensures
        r == is_close(c),
{
    c == ')' || c == '\u{FF09}'
}

/// Removes every parenthetical group of `v`.
fn strip(v: &Vec<char>) -> (out: Vec<char>)
    ensures
        out@ == strip_groups(v@),
{
    let n = v.len();
    let mut out: Vec<char> = Vec::new();
    let mut from: usize = 0;
    proof {
        assert(v@.skip(0) =~= v@);
    }
    loop
        invariant
            from <= n == v.len(),
            out@ + strip_groups(v@.skip(from as int)) == strip_groups(v@),
        decreases n - from,
    {
        let ghost s = v@.skip(from as int);
        let mut q: usize = from;
        while q < n && !is_open_char(v[q])
            invariant
                from <= q <= n == v.len(),
                forall|i: int| from <= i < q ==> !is_open(#[trigger] v@[i]),
            decreases n - q,
        {
            q += 1;
        }
        proof {
            lemma_first_open_is(s, q - from);
        }
        if q == n {
            push_range(&mut out, v, from, n);
            assert(v@.subrange(from as int, n as int) =~= s);
            return out;
        }
        let ghost rest = s.skip(q - from + 1);
        let mut r: usize = q + 1;
        while r < n && !is_close_char(v[r])
            invariant
                q < r <= n == v.len(),
                forall|i: int| q < i < r ==> !is_close(#[trigger] v@[i]),
            decreases n - r,
        {
            r += 1;
        }
        proof {
            assert(rest =~= v@.skip(q + 1));
            lemma_first_close_is(rest, r - q - 1);
        }
        if r == n {
            push_range(&mut out, v, from, n);
            assert(v@.subrange(from as int, n as int) =~= s);
            return out;
        }
        let p = drop_spaces(v, from, q);
        let e = skip_spaces(v, r + 1, n);
        proof {
            assert(s.take(q - from) =~= v@.subrange(from as int, q as int));
            assert(rest.skip(r - q) =~= v@.subrange(r + 1, n as int));
            assert(v@.subrange(e as int, n as int) =~= v@.skip(e as int));
            let head = v@.subrange(from as int, p as int);
            assert(strip_groups(s) == head + strip_groups(v@.skip(e as int)));
            assert((out@ + head) + strip_groups(v@.skip(e as int)) =~= out@ + (head + strip_groups(
                v@.skip(e as int),
            )));
        }
        push_range(&mut out, v, from, p);
        from = e;
    }
}

/// The normal form of a company name: every parenthetical group is removed
/// together with the white space around it, and the result is trimmed.
pub fn normalize(company: &str) -> (name: String)
    ensures
        name@ == normalized(company@),
{
    let v = to_chars(company);
    let stripped = strip(&v);
    let n = stripped.len();
    let a = skip_spaces(&stripped, 0, n);
    let b = drop_spaces(&stripped, a, n);
    proof {
        assert(stripped@.subrange(0, n as int) =~= stripped@);
    }
    from_chars(&stripped, a, b)
}

} // verus!
