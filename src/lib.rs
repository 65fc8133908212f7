use vstd::prelude::*;

mod error;
mod lemmas;
mod rules;
mod steps;
mod text;

pub use crate::error::SanitizeGitRefError;
pub use crate::lemmas::{lemma_sanitized_idempotent, lemma_sanitized_is_valid};
pub use crate::rules::{is_valid_onelevel_ref, sanitized};

use crate::steps::{
    contains_char, elide_consecutive_run, replace_dot_after_slash_exec, replace_forbidden_exec,
    replace_leading_dot_exec, replace_with_hyphen_exec, sanitize_consecutive_run,
    strip_leading_slashes_exec, strip_trailing_exec,
};
use crate::text::{chars_of, string_of};

verus! {

/// How strictly a name is sanitized.
struct SanitizeOptions {
    /// Whether a name without any `/` is accepted.
    allow_onelevel: bool,
}

/// Sanitizes `text` into a valid ref name, following the rules of
/// `git check-ref-format`. Without `allow_onelevel`, a text without any `/`
/// is refused before any rewriting.
fn sanitize(text: &str, options: SanitizeOptions) -> (r: Result<String, Box<SanitizeGitRefError>>)
    ensures
        !options.allow_onelevel && !text@.contains('/') ==> r == Err::<String, Box<SanitizeGitRefError>>(
            Box::new(SanitizeGitRefError::DoesNotContainForwardSlash),
        ),
        options.allow_onelevel || text@.contains('/') ==> r is Ok && r->Ok_0@ == sanitized(text@),
{
    let SanitizeOptions { allow_onelevel } = options;
    let mut result = chars_of(text);

    if !allow_onelevel {
        if !contains_char(&result, '/') {
            return Err(Box::new(SanitizeGitRefError::DoesNotContainForwardSlash));
        }
    }

    result = replace_leading_dot_exec(result);
    result = replace_dot_after_slash_exec(&result);
    result = replace_with_hyphen_exec(&result, &vec!['.', 'l', 'o', 'c', 'k']);
    result = replace_with_hyphen_exec(&result, &vec!['@', '{']);
    result = replace_forbidden_exec(&result);
    result = sanitize_consecutive_run(result, '/');
    result = sanitize_consecutive_run(result, '.');
    result = strip_leading_slashes_exec(&result);
    result = strip_trailing_exec(result);
    result = elide_consecutive_run(result, '-');

    Ok(string_of(&result))
}

/// Sanitizes `text` into a valid ref name, following the rules of
/// `git check-ref-format` with `--allow-onelevel`: a name need not hold a `/`.
pub fn sanitize_git_ref_onelevel(text: &str) -> (r: String)
    ensures
        r@ == sanitized(text@),
        is_valid_onelevel_ref(r@),
        sanitized(r@) == r@,
{
    proof {
        lemma_sanitized_is_valid(text@);
        lemma_sanitized_idempotent(text@);
    }
    let sanitized = sanitize(text, SanitizeOptions { allow_onelevel: true });
    match sanitized {
        Ok(s) => s,
        Err(_) => vstd::pervasive::unreached(),
    }
}

} // verus!
