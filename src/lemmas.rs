//! Facts about the rewriting steps: which rules each step establishes and
//! which it preserves.
use vstd::prelude::*;
use crate::rules::{
    elide_runs, free_of, is_forbidden_char, is_valid_onelevel_ref, lock_suffix, mark_runs,
    no_component_ends_with_lock, no_component_starts_with_dot, no_pair, occurs_at, reflog_open,
    replace_dot_after_slash, replace_forbidden, replace_leading_dot, replace_with_hyphen,
    sanitized, strip_leading_slashes, strip_trailing,
};

verus! {

/// Every character of `s` may stand in a ref name.
pub open spec fn all_allowed(s: Seq<char>) -> bool {
    forall|i: int| 0 <= i < s.len() ==> !is_forbidden_char(#[trigger] s[i])
}

/// `t` is `s` with some characters turned into `-`.
pub open spec fn hyphenated(s: Seq<char>, t: Seq<char>) -> bool {
    &&& t.len() == s.len()
    &&& forall|i: int| 0 <= i < s.len() ==> #[trigger] t[i] == s[i] || t[i] == '-'
}

/// `q` is a non-empty pattern without `-`.
pub open spec fn plain_pattern(q: Seq<char>) -> bool {
    q.len() > 0 && !q.contains('-')
}

pub proof fn lemma_hyphenated_free(s: Seq<char>, t: Seq<char>, q: Seq<char>)
    requires
        hyphenated(s, t),
        plain_pattern(q),
        free_of(s, q),
    ensures
        free_of(t, q),
{
    assert forall|j: int| !#[trigger] occurs_at(t, q, j) by {
        if occurs_at(t, q, j) {
            assert forall|k: int| 0 <= k < q.len() implies s[j + k] == q[k] by {
                assert(t.subrange(j, j + q.len())[k] == q[k]);
                assert(q[k] != '-');
            }
            assert(s.subrange(j, j + q.len()) =~= q);
            assert(occurs_at(s, q, j));
        }
    }
}

pub proof fn lemma_hyphenated_allowed(s: Seq<char>, t: Seq<char>)
    requires
        hyphenated(s, t),
        all_allowed(s),
    ensures
        all_allowed(t),
{
    assert forall|i: int| 0 <= i < t.len() implies !is_forbidden_char(#[trigger] t[i]) by {
        assert(t[i] == s[i] || t[i] == '-');
    }
}

pub proof fn lemma_replace_leading_dot(s: Seq<char>)
    ensures
        hyphenated(s, replace_leading_dot(s)),
        replace_leading_dot(s).len() > 0 ==> replace_leading_dot(s)[0] != '.',
{
}

pub proof fn lemma_replace_dot_after_slash(s: Seq<char>)
    ensures
        hyphenated(s, replace_dot_after_slash(s)),
        free_of(replace_dot_after_slash(s), seq!['/', '.']),
        s.len() > 0 ==> replace_dot_after_slash(s)[0] == s[0],
{
    let t = replace_dot_after_slash(s);
    let q = seq!['/', '.'];
    assert forall|j: int| !#[trigger] occurs_at(t, q, j) by {
        if occurs_at(t, q, j) {
            assert(t.subrange(j, j + 2)[0] == '/');
            assert(t.subrange(j, j + 2)[1] == '.');
        }
    }
}

pub proof fn lemma_replace_forbidden(s: Seq<char>)
    ensures
        hyphenated(s, replace_forbidden(s)),
        all_allowed(replace_forbidden(s)),
{
}

pub proof fn lemma_mark_runs(s: Seq<char>, target: char)
    requires
        target != '-',
    ensures
        hyphenated(s, mark_runs(s, target)),
        free_of(mark_runs(s, target), seq![target, target]),
        s.len() > 0 ==> mark_runs(s, target)[0] == s[0],
{
    let t = mark_runs(s, target);
    let q = seq![target, target];
    assert forall|j: int| !#[trigger] occurs_at(t, q, j) by {
        if occurs_at(t, q, j) {
            assert(t.subrange(j, j + 2)[0] == target);
            assert(t.subrange(j, j + 2)[1] == target);
        }
    }
}

pub proof fn lemma_occurs_skip(s: Seq<char>, q: Seq<char>, n: int, j: int)
    requires
        0 <= n <= s.len(),
        occurs_at(s.skip(n), q, j),
    ensures
        occurs_at(s, q, j + n),
{
    assert(s.skip(n).subrange(j, j + q.len()) =~= s.subrange(j + n, j + n + q.len()));
}

/// A leading window of the result of `replace_with_hyphen` that holds no `-`
/// stands unchanged at the start of the input, where `p` does not occur.
pub proof fn lemma_replace_prefix(s: Seq<char>, p: Seq<char>, q: Seq<char>)
    requires
        p.len() > 0,
        plain_pattern(q),
        occurs_at(replace_with_hyphen(s, p), q, 0),
    ensures
        occurs_at(s, q, 0),
        !occurs_at(s, p, 0),
    decreases s.len(),
{
    let t = replace_with_hyphen(s, p);
    assert(t.subrange(0, q.len() as int)[0] == q[0]);
    assert(q.contains(q[0]));
    if occurs_at(s, p, 0) {
        assert(t[0] == '-');
    } else {
        let rest = replace_with_hyphen(s.skip(1), p);
        assert(t == seq![s[0]] + rest);
        if q.len() == 1 {
            assert(s.subrange(0, 1) =~= q);
        } else {
            let q1 = q.skip(1);
            assert forall|c: char| !q1.contains(c) || c != '-' by {
                if q1.contains(c) {
                    let k = choose|k: int| 0 <= k < q1.len() && q1[k] == c;
                    assert(q[k + 1] == c);
                }
            }
            assert(rest.subrange(0, q1.len() as int) =~= t.subrange(0, q.len() as int).skip(1));
            lemma_replace_prefix(s.skip(1), p, q1);
            assert(s.subrange(0, q.len() as int) =~= seq![s[0]] + s.skip(1).subrange(0, q1.len() as int));
            assert(q =~= seq![q[0]] + q1);
        }
    }
}

/// Turning each occurrence of `p` into `-` creates no occurrence of a pattern
/// without `-`, and leaves no occurrence of `p` itself when `p` has no `-`.
pub proof fn lemma_replace_free(s: Seq<char>, p: Seq<char>, q: Seq<char>)
    requires
        p.len() > 0,
        plain_pattern(q),
        free_of(s, q) || q == p,
    ensures
        free_of(replace_with_hyphen(s, p), q),
    decreases s.len(),
{
    let t = replace_with_hyphen(s, p);
    if s.len() > 0 {
        let n = if occurs_at(s, p, 0) {
            p.len() as int
        } else {
            1
        };
        let rest = replace_with_hyphen(s.skip(n), p);
        assert(t == seq![t[0]] + rest);
        assert(free_of(s.skip(n), q) || q == p) by {
            if free_of(s, q) {
                assert forall|j: int| !#[trigger] occurs_at(s.skip(n), q, j) by {
                    if occurs_at(s.skip(n), q, j) {
                        lemma_occurs_skip(s, q, n, j);
                    }
                }
            }
        }
        lemma_replace_free(s.skip(n), p, q);
        assert forall|j: int| !#[trigger] occurs_at(t, q, j) by {
            if occurs_at(t, q, j) {
                if j == 0 {
                    lemma_replace_prefix(s, p, q);
                } else {
                    assert(t.subrange(j, j + q.len()) =~= rest.subrange(j - 1, j - 1 + q.len()));
                    assert(occurs_at(rest, q, j - 1));
                }
            }
        }
    }
}

pub proof fn lemma_replace_first(s: Seq<char>, p: Seq<char>)
    requires
        p.len() > 0,
        s.len() > 0,
    ensures
        replace_with_hyphen(s, p).len() > 0,
        replace_with_hyphen(s, p)[0] == s[0] || replace_with_hyphen(s, p)[0] == '-',
{
}

pub proof fn lemma_subrange_free(s: Seq<char>, q: Seq<char>, a: int, b: int)
    requires
        0 <= a <= b <= s.len(),
        free_of(s, q),
    ensures
        free_of(s.subrange(a, b), q),
{
    let t = s.subrange(a, b);
    assert forall|j: int| !#[trigger] occurs_at(t, q, j) by {
        if occurs_at(t, q, j) {
            assert(t.subrange(j, j + q.len()) =~= s.subrange(a + j, a + j + q.len()));
            assert(occurs_at(s, q, a + j));
        }
    }
}

/// Removing the leading slashes leaves a suffix of the input that starts
/// right after a `/`, or the input itself.
pub proof fn lemma_strip_leading(s: Seq<char>) -> (k: int)
    ensures
        0 <= k <= s.len(),
        strip_leading_slashes(s) == s.subrange(k, s.len() as int),
        k > 0 ==> s[k - 1] == '/',
        strip_leading_slashes(s).len() > 0 ==> strip_leading_slashes(s)[0] != '/',
    decreases s.len(),
{
    if s.len() > 0 && s[0] == '/' {
        let k1 = lemma_strip_leading(s.drop_first());
        assert(s.drop_first().subrange(k1, s.len() - 1) =~= s.subrange(k1 + 1, s.len() as int));
        if k1 > 0 {
            assert(s[k1] == s.drop_first()[k1 - 1]);
        }
        k1 + 1
    } else {
        assert(s.subrange(0, s.len() as int) =~= s);
        0
    }
}

/// Removing the trailing slashes and dots leaves a prefix of the input.
pub proof fn lemma_strip_trailing(s: Seq<char>) -> (k: int)
    ensures
        0 <= k <= s.len(),
        strip_trailing(s) == s.subrange(0, k),
        k > 0 ==> s[k - 1] != '/' && s[k - 1] != '.',
    decreases s.len(),
{
    if s.len() > 0 && (s.last() == '/' || s.last() == '.') {
        let k1 = lemma_strip_trailing(s.drop_last());
        assert(s.drop_last().subrange(0, k1) =~= s.subrange(0, k1));
        k1
    } else {
        assert(s.subrange(0, s.len() as int) =~= s);
        s.len() as int
    }
}

/// Eliding runs keeps the first and the last character.
pub proof fn lemma_elide_ends(s: Seq<char>, target: char)
    ensures
        elide_runs(s, target).len() <= s.len(),
        s.len() > 0 ==> elide_runs(s, target).len() > 0,
        s.len() > 0 ==> elide_runs(s, target)[0] == s[0],
        s.len() > 0 ==> elide_runs(s, target).last() == s.last(),
    decreases s.len(),
{
    if s.len() > 0 {
        lemma_elide_ends(s.drop_last(), target);
    }
}

pub proof fn lemma_elide_allowed(s: Seq<char>, target: char)
    requires
        all_allowed(s),
    ensures
        all_allowed(elide_runs(s, target)),
    decreases s.len(),
{
    if s.len() > 0 {
        lemma_elide_allowed(s.drop_last(), target);
    }
}

/// A trailing window of the result of eliding runs of `-` that holds no `-`
/// stands at the end of the input too.
pub proof fn lemma_elide_suffix(s: Seq<char>, q: Seq<char>)
    requires
        plain_pattern(q),
        occurs_at(elide_runs(s, '-'), q, elide_runs(s, '-').len() - q.len()),
    ensures
        occurs_at(s, q, s.len() - q.len()),
    decreases s.len(),
{
    let t = elide_runs(s, '-');
    lemma_elide_ends(s, '-');
    let m = q.len() as int;
    assert(t.subrange(t.len() - m, t.len() as int)[m - 1] == q[m - 1]);
    assert(q.contains(q[m - 1]));
    if s.len() > 0 {
        let s1 = s.drop_last();
        let t1 = elide_runs(s1, '-');
        assert(t == t1.push(s.last()));
        if m == 1 {
            assert(s.subrange(s.len() - 1, s.len() as int) =~= q);
        } else {
            let q1 = q.drop_last();
            assert forall|c: char| !q1.contains(c) || c != '-' by {
                if q1.contains(c) {
                    let k = choose|k: int| 0 <= k < q1.len() && q1[k] == c;
                    assert(q[k] == c);
                }
            }
            assert(t1.subrange(t1.len() - (m - 1), t1.len() as int) =~= t.subrange(
                t.len() - m,
                t.len() as int,
            ).drop_last());
            lemma_elide_suffix(s1, q1);
            assert(s.subrange(s.len() - m, s.len() as int) =~= s1.subrange(
                s1.len() - (m - 1),
                s1.len() as int,
            ).push(s.last()));
            assert(q =~= q1.push(q[m - 1]));
        }
    }
}

/// Eliding runs of `-` creates no occurrence of a pattern without `-`.
pub proof fn lemma_elide_free(s: Seq<char>, q: Seq<char>)
    requires
        plain_pattern(q),
        free_of(s, q),
    ensures
        free_of(elide_runs(s, '-'), q),
    decreases s.len(),
{
    if s.len() > 0 {
        let s1 = s.drop_last();
        let t = elide_runs(s, '-');
        let t1 = elide_runs(s1, '-');
        lemma_subrange_free(s, q, 0, s.len() - 1);
        assert(s.subrange(0, s.len() - 1) == s1);
        lemma_elide_free(s1, q);
        assert forall|j: int| !#[trigger] occurs_at(t, q, j) by {
            if occurs_at(t, q, j) {
                if j + q.len() <= t1.len() {
                    if t != t1 {
                        assert(t.subrange(j, j + q.len()) =~= t1.subrange(j, j + q.len()));
                    }
                    assert(occurs_at(t1, q, j));
                } else {
                    lemma_elide_suffix(s, q);
                }
            }
        }
    }
}

pub proof fn lemma_free_pair(s: Seq<char>, a: char, b: char)
    requires
        free_of(s, seq![a, b]),
    ensures
        no_pair(s, a, b),
{
    assert forall|i: int| 0 <= i < s.len() - 1 implies !(#[trigger] s[i] == a && s[i + 1] == b) by {
        if s[i] == a && s[i + 1] == b {
            assert(s.subrange(i, i + 2) =~= seq![a, b]);
            assert(occurs_at(s, seq![a, b], i));
        }
    }
}

/// Whatever the input, the sanitized name obeys every naming rule of a
/// one-level ref: no component begins with `.` or ends with `.lock`; no `..`,
/// `//` or `@{`; no control, whitespace or `~ ^ : ? * [ \ @` character; and
/// it neither begins with `/` nor ends with `/` or `.`. Indeed `.lock`
/// occurs nowhere in it, at the end of a component or elsewhere.
pub proof fn lemma_sanitized_is_valid(s: Seq<char>)
    ensures
        is_valid_onelevel_ref(sanitized(s)),
        free_of(sanitized(s), lock_suffix()),
{
    let slash_dot = seq!['/', '.'];
    let slashes = seq!['/', '/'];
    let dots = seq!['.', '.'];
    let lock = lock_suffix();
    assert(!slash_dot.contains('-')) by {
        if slash_dot.contains('-') {
            let k = choose|k: int| 0 <= k < 2 && slash_dot[k] == '-';
        }
    }
    assert(!slashes.contains('-')) by {
        if slashes.contains('-') {
            let k = choose|k: int| 0 <= k < 2 && slashes[k] == '-';
        }
    }
    assert(!dots.contains('-')) by {
        if dots.contains('-') {
            let k = choose|k: int| 0 <= k < 2 && dots[k] == '-';
        }
    }
    assert(!lock.contains('-')) by {
        if lock.contains('-') {
            let k = choose|k: int| 0 <= k < 5 && lock[k] == '-';
        }
    }

    let s1 = replace_leading_dot(s);
    lemma_replace_leading_dot(s);

    let s2 = replace_dot_after_slash(s1);
    lemma_replace_dot_after_slash(s1);

    let s3 = replace_with_hyphen(s2, lock);
    lemma_replace_free(s2, lock, slash_dot);
    lemma_replace_free(s2, lock, lock);
    if s2.len() > 0 {
        lemma_replace_first(s2, lock);
    }

    let s4 = replace_with_hyphen(s3, reflog_open());
    lemma_replace_free(s3, reflog_open(), slash_dot);
    lemma_replace_free(s3, reflog_open(), lock);
    if s3.len() > 0 {
        lemma_replace_first(s3, reflog_open());
    }

    let s5 = replace_forbidden(s4);
    lemma_replace_forbidden(s4);
    lemma_hyphenated_free(s4, s5, slash_dot);
    lemma_hyphenated_free(s4, s5, lock);

    let s6 = mark_runs(s5, '/');
    lemma_mark_runs(s5, '/');
    lemma_hyphenated_free(s5, s6, slash_dot);
    lemma_hyphenated_free(s5, s6, lock);
    lemma_hyphenated_allowed(s5, s6);

    let s7 = mark_runs(s6, '.');
    lemma_mark_runs(s6, '.');
    lemma_hyphenated_free(s6, s7, slash_dot);
    lemma_hyphenated_free(s6, s7, lock);
    lemma_hyphenated_free(s6, s7, slashes);
    lemma_hyphenated_allowed(s6, s7);
    assert(s7.len() > 0 ==> s7[0] != '.');

    let s8 = strip_leading_slashes(s7);
    let k = lemma_strip_leading(s7);
    lemma_subrange_free(s7, slash_dot, k, s7.len() as int);
    lemma_subrange_free(s7, lock, k, s7.len() as int);
    lemma_subrange_free(s7, slashes, k, s7.len() as int);
    lemma_subrange_free(s7, dots, k, s7.len() as int);
    if s8.len() > 0 && k > 0 {
        assert(s8[0] == s7[k]);
        assert(s7[k] != '.') by {
            if s7[k] == '.' {
                assert(s7.subrange(k - 1, k + 1) =~= slash_dot);
                assert(occurs_at(s7, slash_dot, k - 1));
            }
        }
    }

    let s9 = strip_trailing(s8);
    let n = lemma_strip_trailing(s8);
    lemma_subrange_free(s8, slash_dot, 0, n);
    lemma_subrange_free(s8, lock, 0, n);
    lemma_subrange_free(s8, slashes, 0, n);
    lemma_subrange_free(s8, dots, 0, n);

    let r = elide_runs(s9, '-');
    lemma_elide_ends(s9, '-');
    lemma_elide_allowed(s9, '-');
    lemma_elide_free(s9, slash_dot);
    lemma_elide_free(s9, lock);
    lemma_elide_free(s9, slashes);
    lemma_elide_free(s9, dots);
    assert(r == sanitized(s));

    lemma_free_pair(r, '/', '.');
    lemma_free_pair(r, '/', '/');
    lemma_free_pair(r, '.', '.');
    assert(no_component_ends_with_lock(r)) by {
        assert forall|i: int| #[trigger] occurs_at(r, lock, i) implies i + 5 < r.len() && r[i + 5] != '/' by {
        }
    }
    assert(no_component_starts_with_dot(r)) by {
        assert forall|i: int| 0 <= i < r.len() && #[trigger] r[i] == '.' implies i > 0 && r[i - 1] != '/' by {
            if i > 0 && r[i - 1] == '/' {
                assert(r[i - 1] == '/' && r[i] == '.');
            }
        }
    }
}

/// Eliding runs of `-` leaves no `--`.
pub proof fn lemma_elide_no_double_hyphen(s: Seq<char>)
    ensures
        no_pair(elide_runs(s, '-'), '-', '-'),
    decreases s.len(),
{
    if s.len() > 0 {
        let s1 = s.drop_last();
        lemma_elide_no_double_hyphen(s1);
        lemma_elide_ends(s1, '-');
    }
}

pub proof fn lemma_replace_unchanged(s: Seq<char>, p: Seq<char>)
    requires
        p.len() > 0,
        free_of(s, p),
    ensures
        replace_with_hyphen(s, p) == s,
    decreases s.len(),
{
    if s.len() > 0 {
        assert(!occurs_at(s, p, 0));
        assert forall|j: int| !#[trigger] occurs_at(s.skip(1), p, j) by {
            if occurs_at(s.skip(1), p, j) {
                lemma_occurs_skip(s, p, 1, j);
            }
        }
        lemma_replace_unchanged(s.skip(1), p);
        assert(seq![s[0]] + s.skip(1) =~= s);
    }
}

pub proof fn lemma_elide_unchanged(s: Seq<char>)
    requires
        no_pair(s, '-', '-'),
    ensures
        elide_runs(s, '-') == s,
    decreases s.len(),
{
    if s.len() > 0 {
        let s1 = s.drop_last();
        assert(no_pair(s1, '-', '-')) by {
            assert forall|i: int| 0 <= i < s1.len() - 1 implies !(#[trigger] s1[i] == '-' && s1[i + 1] == '-') by {
                assert(s[i] == s1[i] && s[i + 1] == s1[i + 1]);
            }
        }
        lemma_elide_unchanged(s1);
        if s.len() >= 2 {
            assert(!(s[s.len() - 2] == '-' && s[s.len() - 1] == '-'));
        }
        assert(s1.push(s.last()) =~= s);
    }
}

/// Sanitizing a name that is already sanitized gives it back unchanged.
pub proof fn lemma_sanitized_idempotent(s: Seq<char>)
    ensures
        sanitized(sanitized(s)) == sanitized(s),
{
    let r = sanitized(s);
    lemma_sanitized_is_valid(s);
    lemma_elide_no_double_hyphen(strip_trailing(
        strip_leading_slashes(
            mark_runs(
                mark_runs(
                    replace_forbidden(
                        replace_with_hyphen(
                            replace_with_hyphen(
                                replace_dot_after_slash(replace_leading_dot(s)),
                                lock_suffix(),
                            ),
                            reflog_open(),
                        ),
                    ),
                    '/',
                ),
                '.',
            ),
        ),
    ));
    assert(replace_leading_dot(r) == r);
    assert(replace_dot_after_slash(r) =~= r) by {
        assert forall|i: int| 0 <= i < r.len() implies #[trigger] replace_dot_after_slash(r)[i] == r[i] by {
            if i > 0 && r[i - 1] == '/' && r[i] == '.' {
                assert(r[i] == '.');
            }
        }
    }
    lemma_replace_unchanged(r, lock_suffix());
    assert(free_of(r, reflog_open())) by {
        assert forall|i: int| !#[trigger] occurs_at(r, reflog_open(), i) by {
            if occurs_at(r, reflog_open(), i) {
                assert(r.subrange(i, i + 2)[0] == '@');
                assert(r[i] == '@');
            }
        }
    }
    lemma_replace_unchanged(r, reflog_open());
    assert(replace_forbidden(r) =~= r);
    assert(mark_runs(r, '/') =~= r);
    assert(mark_runs(r, '.') =~= r);
    assert(strip_leading_slashes(r) == r);
    assert(strip_trailing(r) == r);
    lemma_elide_unchanged(r);
}

} // verus!
