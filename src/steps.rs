//! Executable forms of the rewriting steps, each proved equal to its rule.
use vstd::prelude::*;
use crate::rules::{
    elide_runs, is_forbidden_char, is_white_space, mark_runs, occurs_at, replace_dot_after_slash,
    replace_forbidden, replace_leading_dot, replace_with_hyphen, strip_leading_slashes,
    strip_trailing,
};

verus! {

/// Relies on `char::is_whitespace`: true exactly for the characters with the
/// Unicode `White_Space` property.
#[verifier::external_body]
fn char_is_whitespace(c: char) -> (r: bool)
    ensures
        r == is_white_space(c),
{
    c.is_whitespace()
}

/// Whether `c` may not stand in a ref name.
pub fn is_disallowed(c: char) -> (r: bool)
    ensures
        r == is_forbidden_char(c),
{
    let u = c as u32;
    if u < 0x20 || u == 0x7F {
        return true;
    }
    if char_is_whitespace(c) {
        return true;
    }
    c == '~' || c == '^' || c == ':' || c == '?' || c == '*' || c == '[' || c == '\\' || c == '@'
}

/// Replaces consecutive occurrences of `target` with hyphens: in each run of
/// `target` the first stays and the others become `-`.
pub fn sanitize_consecutive_run(s: Vec<char>, target: char) -> (r: Vec<char>)
    ensures
        r@ == mark_runs(s@, target),
{
    let mut r: Vec<char> = Vec::new();
    let mut current_run: usize = 0;
    let mut i: usize = 0;
    while i < s.len()
        invariant
            i <= s.len(),
            r@.len() == i,
            forall|j: int| 0 <= j < i ==> r@[j] == #[trigger] mark_runs(s@, target)[j],
            current_run == (if i == 0 || s@[i - 1] != target {
                0usize
            } else if i >= 2 && s@[i - 2] == target {
                2usize
            } else {
                1usize
            }),
        decreases s.len() - i,
    {
        let c = s[i];
        if c == target {
            if current_run < 2 {
                current_run = current_run + 1;
            }
        } else {
            current_run = 0;
        }
        if current_run < 2 {
            r.push(c);
        } else {
            r.push('-');
        }
        i = i + 1;
    }
    assert(r@ =~= mark_runs(s@, target));
    r
}

/// Removes consecutive occurrences of `target`: in each run of `target` only
/// the first stays.
pub fn elide_consecutive_run(s: Vec<char>, target: char) -> (r: Vec<char>)
    ensures
        r@ == elide_runs(s@, target),
{
    let mut r: Vec<char> = Vec::new();
    let mut i: usize = 0;
    while i < s.len()
        invariant
            i <= s.len(),
            r@ == elide_runs(s@.subrange(0, i as int), target),
        decreases s.len() - i,
    {
        let c = s[i];
        let repeated = i > 0 && c == target && s[i - 1] == target;
        proof {
            let t = s@.subrange(0, i + 1);
            assert(t.drop_last() =~= s@.subrange(0, i as int));
        }
        if !repeated {
            r.push(c);
        }
        i = i + 1;
    }
    assert(s@.subrange(0, s.len() as int) =~= s@);
    r
}

/// A leading `.` becomes `-`.
pub fn replace_leading_dot_exec(s: Vec<char>) -> (r: Vec<char>)
    ensures
        r@ == replace_leading_dot(s@),
{
    let mut r = s;
    if r.len() > 0 && r[0] == '.' {
        r.set(0, '-');
    }
    r
}

/// Every `/.` becomes `/-`.
pub fn replace_dot_after_slash_exec(s: &Vec<char>) -> (r: Vec<char>)
    ensures
        r@ == replace_dot_after_slash(s@),
{
    let mut r: Vec<char> = Vec::new();
    let mut i: usize = 0;
    while i < s.len()
        invariant
            i <= s.len(),
            r@.len() == i,
            forall|j: int| 0 <= j < i ==> r@[j] == #[trigger] replace_dot_after_slash(s@)[j],
        decreases s.len() - i,
    {
        if i > 0 && s[i - 1] == '/' && s[i] == '.' {
            r.push('-');
        } else {
            r.push(s[i]);
        }
        i = i + 1;
    }
    assert(r@ =~= replace_dot_after_slash(s@));
    r
}

/// Whether `p` occurs in `s` at index `i`.
pub fn occurs_at_exec(s: &Vec<char>, p: &Vec<char>, i: usize) -> (r: bool)
    ensures
        r == occurs_at(s@, p@, i as int),
{
    if i > s.len() || p.len() > s.len() - i {
        return false;
    }
    let mut j: usize = 0;
    while j < p.len()
        invariant
            j <= p.len(),
            i + p.len() <= s.len(),
            forall|k: int| 0 <= k < j ==> s@[i + k] == p@[k],
        decreases p.len() - j,
    {
        if s[i + j] != p[j] {
            assert(s@.subrange(i as int, i + p.len())[j as int] != p@[j as int]);
            return false;
        }
        j = j + 1;
    }
    assert(s@.subrange(i as int, i + p.len()) =~= p@);
    true
}

/// Every occurrence of `p`, left to right and without overlap, becomes `-`.
pub fn replace_with_hyphen_exec(s: &Vec<char>, p: &Vec<char>) -> (r: Vec<char>)
    requires
        p@.len() > 0,
    ensures
        r@ == replace_with_hyphen(s@, p@),
{
    let mut r: Vec<char> = Vec::new();
    let mut i: usize = 0;
    assert(s@.subrange(0, s@.len() as int) =~= s@);
    assert(r@ + replace_with_hyphen(s@, p@) =~= replace_with_hyphen(s@, p@));
    while i < s.len()
        invariant
            i <= s.len(),
            p@.len() > 0,
            replace_with_hyphen(s@, p@) == r@ + replace_with_hyphen(
                s@.subrange(i as int, s@.len() as int),
                p@,
            ),
        decreases s.len() - i,
    {
        let ghost t = s@.subrange(i as int, s@.len() as int);
        if occurs_at_exec(s, p, i) {
            proof {
                assert(t.subrange(0, p@.len() as int) =~= s@.subrange(i as int, i + p@.len()));
                assert(t.skip(p@.len() as int) =~= s@.subrange(i + p@.len(), s@.len() as int));
                assert(r@.push('-') + replace_with_hyphen(t.skip(p@.len() as int), p@) =~= r@ + (
                seq!['-'] + replace_with_hyphen(t.skip(p@.len() as int), p@)));
            }
            r.push('-');
            i = i + p.len();
        } else {
            proof {
                if p@.len() <= t.len() {
                    assert(t.subrange(0, p@.len() as int) =~= s@.subrange(
                        i as int,
                        i + p@.len(),
                    ));
                }
                assert(t.skip(1) =~= s@.subrange(i + 1, s@.len() as int));
                assert(r@.push(s@[i as int]) + replace_with_hyphen(t.skip(1), p@) =~= r@ + (seq![
                    t[0],
                ] + replace_with_hyphen(t.skip(1), p@)));
            }
            r.push(s[i]);
            i = i + 1;
        }
    }
    assert(replace_with_hyphen(s@.subrange(i as int, s@.len() as int), p@) =~= Seq::empty());
    assert(r@ + Seq::<char>::empty() =~= r@);
    r
}

/// Each forbidden character becomes `-`.
pub fn replace_forbidden_exec(s: &Vec<char>) -> (r: Vec<char>)
    ensures
        r@ == replace_forbidden(s@),
{
    let mut r: Vec<char> = Vec::new();
    let mut i: usize = 0;
    while i < s.len()
        invariant
            i <= s.len(),
            r@.len() == i,
            forall|j: int| 0 <= j < i ==> r@[j] == #[trigger] replace_forbidden(s@)[j],
        decreases s.len() - i,
    {
        if is_disallowed(s[i]) {
            r.push('-');
        } else {
            r.push(s[i]);
        }
        i = i + 1;
    }
    assert(r@ =~= replace_forbidden(s@));
    r
}

/// All leading `/` are removed.
pub fn strip_leading_slashes_exec(s: &Vec<char>) -> (r: Vec<char>)
    ensures
        r@ == strip_leading_slashes(s@),
{
    let mut k: usize = 0;
    assert(s@.subrange(0, s@.len() as int) =~= s@);
    while k < s.len() && s[k] == '/'
        invariant
            k <= s.len(),
            strip_leading_slashes(s@) == strip_leading_slashes(s@.subrange(k as int, s@.len() as int)),
        decreases s.len() - k,
    {
        assert(s@.subrange(k as int, s@.len() as int).drop_first() =~= s@.subrange(k + 1, s@.len() as int));
        k = k + 1;
    }
    let mut r: Vec<char> = Vec::new();
    let mut i: usize = k;
    while i < s.len()
        invariant
            k <= i <= s.len(),
            r@ == s@.subrange(k as int, i as int),
        decreases s.len() - i,
    {
        r.push(s[i]);
        i = i + 1;
        assert(r@ =~= s@.subrange(k as int, i as int));
    }
    r
}

/// All trailing `/` and `.` are removed.
pub fn strip_trailing_exec(s: Vec<char>) -> (r: Vec<char>)
    ensures
        r@ == strip_trailing(s@),
{
    let mut r = s;
    while r.len() > 0 && (r[r.len() - 1] == '/' || r[r.len() - 1] == '.')
        invariant
            strip_trailing(r@) == strip_trailing(s@),
        decreases r.len(),
    {
        r.pop();
    }
    r
}

/// Whether `target` occurs in `s`.
pub fn contains_char(s: &Vec<char>, target: char) -> (r: bool)
    ensures
        r == s@.contains(target),
{
    let mut i: usize = 0;
    while i < s.len()
        invariant
            i <= s.len(),
            forall|j: int| 0 <= j < i ==> s@[j] != target,
        decreases s.len() - i,
    {
        if s[i] == target {
            return true;
        }
        i = i + 1;
    }
    false
}

} // verus!
