//! Comment stripping, applied to a document before parsing.
//!
//! A `%` starts a comment running to the end of its line; `(*` and `*)`
//! delimit a block comment, matched non-greedily; an unterminated block
//! opener is left in place.  Inline stripping runs after block
//! stripping.

use crate::scan::chars_of;
use crate::scan::string_from_chars;
use vstd::prelude::*;

verus! {

/// The first index at or after `i` that ends a comment line.
pub open spec fn sp_line_end(s: Seq<char>, i: int) -> int
    decreases s.len() - i,
    when 0 <= i <= s.len()
{
    if i < s.len() && s[i] != '\n' && s[i] != '\r' {
        sp_line_end(s, i + 1)
    } else {
        i
    }
}

pub proof fn lemma_line_end_bounds(s: Seq<char>, i: int)
    requires
        0 <= i <= s.len(),
    ensures
        i <= sp_line_end(s, i) <= s.len(),
    decreases s.len() - i,
{
    if i < s.len() && s[i] != '\n' && s[i] != '\r' {
        lemma_line_end_bounds(s, i + 1);
    }
}

/// The suffix of `s` from `i` with `%`-comments removed: a `%` swallows
/// everything up to, but not including, the end of its line.
pub open spec fn sp_strip_inline_from(s: Seq<char>, i: int) -> Seq<char>
    decreases s.len() - i,
    when 0 <= i <= s.len()
{
    if i >= s.len() {
        Seq::empty()
    } else if s[i] == '%' {
        let e = sp_line_end(s, i + 1);
        if i < e <= s.len() {
            sp_strip_inline_from(s, e)
        } else {
            Seq::empty()
        }
    } else {
        seq![s[i]] + sp_strip_inline_from(s, i + 1)
    }
}

/// A document with its `%`-comments removed.
pub open spec fn spec_strip_inline(s: Seq<char>) -> Seq<char> {
    sp_strip_inline_from(s, 0)
}

/// The index of the next block-comment closer at or after `i`, or the
/// length when there is none.
pub open spec fn sp_close(s: Seq<char>, i: int) -> int
    decreases s.len() - i,
    when 0 <= i <= s.len()
{
    if i < s.len() && !(s[i] == '*' && i + 1 < s.len() && s[i + 1] == ')') {
        sp_close(s, i + 1)
    } else {
        i
    }
}

pub proof fn lemma_close_bounds(s: Seq<char>, i: int)
    requires
        0 <= i <= s.len(),
    ensures
        i <= sp_close(s, i) <= s.len(),
        sp_close(s, i) < s.len() ==> s[sp_close(s, i)] == '*' && sp_close(s, i) + 1 < s.len()
            && s[sp_close(s, i) + 1] == ')',
    decreases s.len() - i,
{
    if i < s.len() && !(s[i] == '*' && i + 1 < s.len() && s[i + 1] == ')') {
        lemma_close_bounds(s, i + 1);
    }
}

/// The suffix of `s` from `i` with block comments removed: `(*` opens a
/// comment closed by the nearest `*)`; an opener without a closer stays
/// in the text.
pub open spec fn sp_strip_ml_from(s: Seq<char>, i: int) -> Seq<char>
    decreases s.len() - i,
    when 0 <= i <= s.len()
{
    if i >= s.len() {
        Seq::empty()
    } else if s[i] == '(' && i + 1 < s.len() && s[i + 1] == '*' {
        let c = sp_close(s, i + 2);
        if c < s.len() && i < c + 2 <= s.len() {
            sp_strip_ml_from(s, c + 2)
        } else {
            s.subrange(i, s.len() as int)
        }
    } else {
        seq![s[i]] + sp_strip_ml_from(s, i + 1)
    }
}

/// A document with its block comments removed.
pub open spec fn spec_strip_ml(s: Seq<char>) -> Seq<char> {
    sp_strip_ml_from(s, 0)
}

/// A document with all comments removed: block comments first, then
/// line comments.
pub open spec fn spec_all_comments(s: Seq<char>) -> Seq<char> {
    spec_strip_inline(spec_strip_ml(s))
}

/// The first index at or after `i` that ends a comment line.
fn line_end(s: &Vec<char>, i: usize) -> (r: usize)
    requires
        i <= s@.len(),
    ensures
        r == sp_line_end(s@, i as int),
        i <= r <= s@.len(),
{
    let mut j = i;
    while j < s.len() && s[j] != '\n' && s[j] != '\r'
        invariant
            i <= j <= s@.len(),
            sp_line_end(s@, i as int) == sp_line_end(s@, j as int),
        decreases s@.len() - j,
    {
        j = j + 1;
    }
    proof {
        lemma_line_end_bounds(s@, j as int);
    }
    j
}

/// The index of the next block-comment closer at or after `i`.
fn find_close(s: &Vec<char>, i: usize) -> (r: usize)
    requires
        i <= s@.len(),
    ensures
        r == sp_close(s@, i as int),
        i <= r <= s@.len(),
        r < s@.len() ==> s@[r as int] == '*' && r + 1 < s@.len() && s@[r as int + 1] == ')',
{
    let mut j = i;
    while j < s.len() && !(s[j] == '*' && j + 1 < s.len() && s[j + 1] == ')')
        invariant
            i <= j <= s@.len(),
            sp_close(s@, i as int) == sp_close(s@, j as int),
        decreases s@.len() - j,
    {
        j = j + 1;
    }
    proof {
        lemma_close_bounds(s@, j as int);
    }
    j
}

/// Remove `%`-comments: each `%` and the rest of its line disappear.
pub fn inline_comments(input: &str) -> (r: String)
    ensures
        r@ == spec_strip_inline(input@),
{
    let s = chars_of(input);
    let mut out: Vec<char> = Vec::new();
    let mut i: usize = 0;
    proof {
        assert(out@ + sp_strip_inline_from(s@, 0) =~= spec_strip_inline(s@));
    }
    while i < s.len()
        invariant
            0 <= i <= s@.len(),
            s@ == input@,
            spec_strip_inline(s@) == out@ + sp_strip_inline_from(s@, i as int),
        decreases s@.len() - i,
    {
        if s[i] == '%' {
            let e = line_end(&s, i + 1);
            i = e;
        } else {
            let ghost before = out@;
            out.push(s[i]);
            proof {
                assert(before + (seq![s@[i as int]] + sp_strip_inline_from(s@, i + 1 as int))
                    =~= out@ + sp_strip_inline_from(s@, i + 1 as int));
            }
            i = i + 1;
        }
    }
    proof {
        assert(out@ + sp_strip_inline_from(s@, s@.len() as int) =~= out@);
    }
    string_from_chars(&out)
}

/// Remove block comments: each `(*` up to its nearest `*)` disappears;
/// an unterminated opener stays.
pub fn multiline_comments(input: &str) -> (r: String)
    ensures
        r@ == spec_strip_ml(input@),
{
    let s = chars_of(input);
    let mut out: Vec<char> = Vec::new();
    let mut i: usize = 0;
    proof {
        assert(out@ + sp_strip_ml_from(s@, 0) =~= spec_strip_ml(s@));
    }
    while i < s.len()
        invariant
            0 <= i <= s@.len(),
            s@ == input@,
            spec_strip_ml(s@) == out@ + sp_strip_ml_from(s@, i as int),
        decreases s@.len() - i,
    {
        if s[i] == '(' && i + 1 < s.len() && s[i + 1] == '*' {
            let c = find_close(&s, i + 2);
            if c < s.len() {
                i = c + 2;
            } else {
                // unterminated: copy the rest verbatim
                let ghost stop = i as int;
                let mut k = i;
                while k < s.len()
                    invariant
                        stop <= k <= s@.len(),
                        0 <= stop,
                        s@ == input@,
                        spec_strip_ml(s@) == out@ + s@.subrange(k as int, s@.len() as int),
                    decreases s@.len() - k,
                {
                    let ghost before = out@;
                    out.push(s[k]);
                    proof {
                        assert(before + s@.subrange(k as int, s@.len() as int) =~= out@
                            + s@.subrange(k + 1 as int, s@.len() as int));
                    }
                    k = k + 1;
                }
                proof {
                    assert(out@ + s@.subrange(s@.len() as int, s@.len() as int) =~= out@);
                    assert(out@ + sp_strip_ml_from(s@, s@.len() as int) =~= out@);
                }
                i = s.len();
            }
        } else {
            let ghost before = out@;
            out.push(s[i]);
            proof {
                assert(before + (seq![s@[i as int]] + sp_strip_ml_from(s@, i + 1 as int)) =~= out@
                    + sp_strip_ml_from(s@, i + 1 as int));
            }
            i = i + 1;
        }
    }
    proof {
        assert(out@ + sp_strip_ml_from(s@, s@.len() as int) =~= out@);
    }
    string_from_chars(&out)
}

/// Remove all comments: block comments, then line comments.
pub fn all_comments(input: &str) -> (r: String)
    ensures
        r@ == spec_all_comments(input@),
{
    let ml = multiline_comments(input);
    inline_comments(ml.as_str())
}

/// No character of an inline-stripped document is a `%`.
proof fn lemma_inline_no_pct(s: Seq<char>, i: int)
    requires
        0 <= i <= s.len(),
    ensures
        forall|k: int|
            0 <= k < sp_strip_inline_from(s, i).len() ==> sp_strip_inline_from(s, i)[k] != '%',
    decreases s.len() - i,
{
    if i >= s.len() {
    } else if s[i] == '%' {
        lemma_line_end_bounds(s, i + 1);
        let e = sp_line_end(s, i + 1);
        lemma_inline_no_pct(s, e);
        assert(sp_strip_inline_from(s, i) == sp_strip_inline_from(s, e));
    } else {
        lemma_inline_no_pct(s, i + 1);
        assert forall|k: int|
            0 <= k < sp_strip_inline_from(s, i).len() implies sp_strip_inline_from(s, i)[k]
            != '%' by {
            if k > 0 {
                assert(sp_strip_inline_from(s, i)[k] == sp_strip_inline_from(s, i + 1)[k - 1]);
            }
        }
    }
}

/// Inline stripping leaves a `%`-free suffix unchanged.
proof fn lemma_inline_identity(s: Seq<char>, i: int)
    requires
        0 <= i <= s.len(),
        forall|k: int| i <= k < s.len() ==> s[k] != '%',
    ensures
        sp_strip_inline_from(s, i) == s.subrange(i, s.len() as int),
    decreases s.len() - i,
{
    if i >= s.len() {
        assert(sp_strip_inline_from(s, i) =~= s.subrange(i, s.len() as int));
    } else {
        lemma_inline_identity(s, i + 1);
        assert(seq![s[i]] + s.subrange(i + 1, s.len() as int) =~= s.subrange(i, s.len() as int));
    }
}

/// Removing line comments is idempotent: a stripped document holds no
/// `%`, so stripping it again changes nothing.
pub proof fn lemma_inline_comments_idempotent(s: Seq<char>)
    ensures
        spec_strip_inline(spec_strip_inline(s)) == spec_strip_inline(s),
{
    let t = spec_strip_inline(s);
    lemma_inline_no_pct(s, 0);
    lemma_inline_identity(t, 0);
    assert(t.subrange(0, t.len() as int) =~= t);
}

/// The document still holds a block-comment opener.
pub open spec fn spec_has_open(s: Seq<char>) -> bool {
    exists|i: int| 0 <= i && i + 1 < s.len() && s[i] == '(' && #[trigger] s[i + 1] == '*'
}

/// Block stripping leaves an opener-free suffix unchanged.
proof fn lemma_ml_identity(s: Seq<char>, i: int)
    requires
        0 <= i <= s.len(),
        !spec_has_open(s),
    ensures
        sp_strip_ml_from(s, i) == s.subrange(i, s.len() as int),
    decreases s.len() - i,
{
    if i >= s.len() {
        assert(sp_strip_ml_from(s, i) =~= s.subrange(i, s.len() as int));
    } else {
        if s[i] == '(' && i + 1 < s.len() && s[i + 1] == '*' {
            assert(spec_has_open(s));
        }
        lemma_ml_identity(s, i + 1);
        assert(seq![s[i]] + s.subrange(i + 1, s.len() as int) =~= s.subrange(i, s.len() as int));
    }
}

/// Removing all comments is idempotent on documents whose stripped form
/// holds no block-comment opener.  (Removing a block can juxtapose a
/// `(` with a `*` and form a new opener; for such documents a second
/// pass strips further, so the hypothesis is needed.)
pub proof fn lemma_all_comments_idempotent(s: Seq<char>)
    requires
        !spec_has_open(spec_all_comments(s)),
    ensures
        spec_all_comments(spec_all_comments(s)) == spec_all_comments(s),
{
    let x = spec_all_comments(s);
    lemma_ml_identity(x, 0);
    assert(x.subrange(0, x.len() as int) =~= x);
    assert(spec_strip_ml(x) == x);
    lemma_inline_comments_idempotent(spec_strip_ml(s));
}

} // verus!
