//! The rewriting steps of the sanitizer, and the naming rules its output
//! obeys, stated over sequences of characters.
use vstd::prelude::*;

verus! {

/// Characters with the Unicode `White_Space` property.
pub open spec fn is_white_space(c: char) -> bool {
    let u = c as u32;
    ||| 0x09 <= u <= 0x0D
    ||| u == 0x20
    ||| u == 0x85
    ||| u == 0xA0
    ||| u == 0x1680
    ||| 0x2000 <= u <= 0x200A
    ||| u == 0x2028
    ||| u == 0x2029
    ||| u == 0x202F
    ||| u == 0x205F
    ||| u == 0x3000
}

/// ASCII control characters: below 0x20, and DEL.
pub open spec fn is_ascii_control(c: char) -> bool {
    (c as u32) < 0x20 || (c as u32) == 0x7F
}

/// Characters that may not stand anywhere in a ref name.
pub open spec fn is_forbidden_char(c: char) -> bool {
    ||| is_ascii_control(c)
    ||| is_white_space(c)
    ||| c == '~'
    ||| c == '^'
    ||| c == ':'
    ||| c == '?'
    ||| c == '*'
    ||| c == '['
    ||| c == '\\'
    ||| c == '@'
}

/// `p` occurs in `s` starting at index `i`.
pub open spec fn occurs_at(s: Seq<char>, p: Seq<char>, i: int) -> bool {
    0 <= i && i + p.len() <= s.len() && s.subrange(i, i + p.len()) == p
}

/// `p` occurs nowhere in `s`.
pub open spec fn free_of(s: Seq<char>, p: Seq<char>) -> bool {
    forall|i: int| !#[trigger] occurs_at(s, p, i)
}

pub open spec fn lock_suffix() -> Seq<char> {
    seq!['.', 'l', 'o', 'c', 'k']
}

pub open spec fn reflog_open() -> Seq<char> {
    seq!['@', '{']
}

/// A leading `.` becomes `-`.
pub open spec fn replace_leading_dot(s: Seq<char>) -> Seq<char> {
    if s.len() > 0 && s[0] == '.' {
        s.update(0, '-')
    } else {
        s
    }
}

/// Every `/.` becomes `/-`: a `.` right after a `/` becomes `-`.
pub open spec fn replace_dot_after_slash(s: Seq<char>) -> Seq<char> {
    Seq::new(
        s.len(),
        |i: int|
            if i > 0 && s[i - 1] == '/' && s[i] == '.' {
                '-'
            } else {
                s[i]
            },
    )
}

/// Every occurrence of `p`, taken left to right without overlap, becomes a
/// single `-`.
pub open spec fn replace_with_hyphen(s: Seq<char>, p: Seq<char>) -> Seq<char>
    decreases s.len(),
{
    if s.len() == 0 {
        s
    } else if p.len() > 0 && occurs_at(s, p, 0) {
        seq!['-'] + replace_with_hyphen(s.skip(p.len() as int), p)
    } else {
        seq![s[0]] + replace_with_hyphen(s.skip(1), p)
    }
}

/// Each forbidden character becomes `-`.
pub open spec fn replace_forbidden(s: Seq<char>) -> Seq<char> {
    s.map_values(
        |c: char|
            if is_forbidden_char(c) {
                '-'
            } else {
                c
            },
    )
}

/// Within each run of `target`, every character after the first becomes `-`.
pub open spec fn mark_runs(s: Seq<char>, target: char) -> Seq<char> {
    Seq::new(
        s.len(),
        |i: int|
            if i > 0 && s[i] == target && s[i - 1] == target {
                '-'
            } else {
                s[i]
            },
    )
}

/// Within each run of `target`, every character after the first is removed.
pub open spec fn elide_runs(s: Seq<char>, target: char) -> Seq<char>
    decreases s.len(),
{
    if s.len() == 0 {
        s
    } else {
        let rest = elide_runs(s.drop_last(), target);
        if s.len() >= 2 && s.last() == target && s[s.len() - 2] == target {
            rest
        } else {
            rest.push(s.last())
        }
    }
}

/// All leading `/` are removed.
pub open spec fn strip_leading_slashes(s: Seq<char>) -> Seq<char>
    decreases s.len(),
{
    if s.len() > 0 && s[0] == '/' {
        strip_leading_slashes(s.drop_first())
    } else {
        s
    }
}

/// All trailing `/` and `.` are removed.
pub open spec fn strip_trailing(s: Seq<char>) -> Seq<char>
    decreases s.len(),
{
    if s.len() > 0 && (s.last() == '/' || s.last() == '.') {
        strip_trailing(s.drop_last())
    } else {
        s
    }
}

/// The whole rewriting pipeline, in order.
pub open spec fn sanitized(s: Seq<char>) -> Seq<char> {
    let s1 = replace_leading_dot(s);
    let s2 = replace_dot_after_slash(s1);
    let s3 = replace_with_hyphen(s2, lock_suffix());
    let s4 = replace_with_hyphen(s3, reflog_open());
    let s5 = replace_forbidden(s4);
    let s6 = mark_runs(s5, '/');
    let s7 = mark_runs(s6, '.');
    let s8 = strip_leading_slashes(s7);
    let s9 = strip_trailing(s8);
    elide_runs(s9, '-')
}

/// No slash-separated component of `s` begins with `.`.
pub open spec fn no_component_starts_with_dot(s: Seq<char>) -> bool {
    forall|i: int| 0 <= i < s.len() && #[trigger] s[i] == '.' ==> i > 0 && s[i - 1] != '/'
}

/// No slash-separated component of `s` ends with `.lock`.
pub open spec fn no_component_ends_with_lock(s: Seq<char>) -> bool {
    forall|i: int| #[trigger]
        occurs_at(s, lock_suffix(), i) ==> i + 5 < s.len() && s[i + 5] != '/'
}

/// `a` immediately followed by `b` occurs nowhere in `s`.
pub open spec fn no_pair(s: Seq<char>, a: char, b: char) -> bool {
    forall|i: int| 0 <= i < s.len() - 1 ==> !(#[trigger] s[i] == a && s[i + 1] == b)
}

/// Every naming rule that a one-level ref name must obey.
pub open spec fn is_valid_onelevel_ref(s: Seq<char>) -> bool {
    &&& no_component_starts_with_dot(s)
    &&& no_component_ends_with_lock(s)
    &&& no_pair(s, '.', '.')
    &&& forall|i: int| 0 <= i < s.len() ==> !is_forbidden_char(#[trigger] s[i])
    &&& s.len() > 0 ==> s[0] != '/'
    &&& s.len() > 0 ==> s.last() != '/'
    &&& no_pair(s, '/', '/')
    &&& s.len() > 0 ==> s.last() != '.'
    &&& no_pair(s, '@', '{')
}

} // verus!
