use sanitize_git_ref::{sanitize_git_ref_onelevel, SanitizeGitRefError};

fn components(name: &str) -> Vec<&str> {
    name.split('/').collect()
}

/// Every rule a one-level ref name must obey, checked directly.
fn obeys_every_rule(name: &str) -> bool {
    let forbidden = ['~', '^', ':', '?', '*', '[', '\\', '@'];
    components(name).iter().all(|c| !c.starts_with('.') && !c.ends_with(".lock"))
        && !name.contains("..")
        && !name.contains(|c: char| c.is_ascii_control() || c.is_whitespace())
        && !name.contains(|c: char| forbidden.contains(&c))
        && !name.starts_with('/')
        && !name.ends_with('/')
        && !name.contains("//")
        && !name.ends_with('.')
        && !name.contains("@{")
}

#[test]
fn feature_branch_with_double_dot_and_reflog_selector() {
    assert_eq!(
        sanitize_git_ref_onelevel("feature/my..branch@{123}"),
        "feature/my.-branch-123}"
    );
}

#[test]
fn branch_name_does_not_contain_a_slash_separated_component_beginning_with_a_dot() {
    let out = sanitize_git_ref_onelevel("refs/heads/.master");
    assert!(components(&out).iter().all(|c| !c.starts_with('.')));
    assert_eq!(out, "refs/heads/-master");
}

#[test]
fn leading_dot_is_replaced() {
    assert_eq!(sanitize_git_ref_onelevel(".hidden"), "-hidden");
    assert_eq!(sanitize_git_ref_onelevel("..x"), "-.x");
}

#[test]
fn branch_name_does_not_contain_a_slash_separated_component_ending_with_dot_lock() {
    let out = sanitize_git_ref_onelevel("refs/heads/master.lock");
    assert!(components(&out).iter().all(|c| !c.ends_with(".lock")));
    assert_eq!(out, "refs/heads/master-");
}

#[test]
fn lock_suffix_inside_a_component_is_replaced_too() {
    assert_eq!(sanitize_git_ref_onelevel("a.lockb/c"), "a-b/c");
}

#[test]
fn branch_name_does_not_contain_two_consecutive_dots() {
    let out = sanitize_git_ref_onelevel("refs/heads/master..foo");
    assert!(!out.contains(".."));
    assert_eq!(out, "refs/heads/master.-foo");
}

#[test]
fn branch_name_does_not_contain_a_control_character() {
    let input = String::from("/refs/heads/master") + std::str::from_utf8(&[39]).unwrap() + "foo";
    let out = sanitize_git_ref_onelevel(&input);
    assert!(!out.contains(|c: char| c.is_ascii_control()));
    assert_eq!(out, "refs/heads/master'foo");
}

#[test]
fn control_characters_become_hyphens() {
    assert_eq!(sanitize_git_ref_onelevel("a\u{1}b\u{7f}c\td"), "a-b-c-d");
    assert_eq!(sanitize_git_ref_onelevel("\u{0}\u{1}\u{2}"), "-");
}

#[test]
fn branch_name_does_not_contain_a_space() {
    let out = sanitize_git_ref_onelevel("/refs/heads/master foo");
    assert!(!out.contains(char::is_whitespace));
    assert_eq!(out, "refs/heads/master-foo");
}

#[test]
fn non_ascii_whitespace_becomes_hyphen() {
    assert_eq!(sanitize_git_ref_onelevel("a\u{3000}b\u{a0}c\u{2029}d"), "a-b-c-d");
}

#[test]
fn non_ascii_letters_are_kept() {
    assert_eq!(sanitize_git_ref_onelevel("fé/ß日本"), "fé/ß日本");
}

#[test]
fn branch_name_does_not_contain_a_tilde() {
    let out = sanitize_git_ref_onelevel("/refs/heads/master~foo");
    assert!(!out.contains('~'));
    assert_eq!(out, "refs/heads/master-foo");
}

#[test]
fn branch_name_does_not_contain_a_carat() {
    let out = sanitize_git_ref_onelevel("/refs/heads/master^foo");
    assert!(!out.contains('^'));
    assert_eq!(out, "refs/heads/master-foo");
}

#[test]
fn branch_name_does_not_contain_a_colon() {
    let out = sanitize_git_ref_onelevel("/refs/heads/master:foo");
    assert!(!out.contains(':'));
    assert_eq!(out, "refs/heads/master-foo");
}

#[test]
fn branch_name_does_not_contain_a_question_mark() {
    let out = sanitize_git_ref_onelevel("/refs/heads/master?foo");
    assert!(!out.contains('?'));
    assert_eq!(out, "refs/heads/master-foo");
}

#[test]
fn branch_name_does_not_contain_an_asterisk() {
    let out = sanitize_git_ref_onelevel("/refs/heads/master*foo");
    assert!(!out.contains('*'));
    assert_eq!(out, "refs/heads/master-foo");
}

#[test]
fn branch_name_does_not_contain_an_open_bracket() {
    let out = sanitize_git_ref_onelevel("/refs/heads/master[foo");
    assert!(!out.contains('['));
    assert_eq!(out, "refs/heads/master-foo");
}

#[test]
fn branch_name_does_not_begin_with_a_forward_slash() {
    let out = sanitize_git_ref_onelevel("/refs/heads/master");
    assert!(!out.starts_with('/'));
    assert_eq!(out, "refs/heads/master");
}

#[test]
fn several_leading_slashes_are_stripped() {
    assert_eq!(sanitize_git_ref_onelevel("///a"), "-a");
}

#[test]
fn branch_name_does_not_end_with_a_forward_slash() {
    let out = sanitize_git_ref_onelevel("refs/heads/master/");
    assert!(!out.ends_with('/'));
    assert_eq!(out, "refs/heads/master");
}

#[test]
fn branch_name_does_not_contain_consecutive_forward_slashes() {
    let out = sanitize_git_ref_onelevel("refs/heads/master//all-right");
    assert!(!out.contains("//"));
    assert_eq!(out, "refs/heads/master/-all-right");
}

#[test]
fn branch_name_does_not_contain_multiple_consecutive_forward_slashes() {
    let out = sanitize_git_ref_onelevel("refs/heads/master///all////right");
    assert!(!out.contains("//"));
    assert_eq!(out, "refs/heads/master/-all/-right");
}

#[test]
fn doubled_slashes_become_hyphen_markers() {
    assert_eq!(
        sanitize_git_ref_onelevel("refs/heads/master//all////right"),
        "refs/heads/master/-all/-right"
    );
}

#[test]
fn branch_name_does_not_end_with_dot() {
    let out = sanitize_git_ref_onelevel("refs/heads/master.");
    assert!(!out.ends_with('.'));
    assert_eq!(out, "refs/heads/master");
}

#[test]
fn trailing_slashes_and_dots_are_stripped() {
    assert_eq!(sanitize_git_ref_onelevel("a/./"), "a/-");
    assert_eq!(sanitize_git_ref_onelevel("a./."), "a./-");
    assert_eq!(sanitize_git_ref_onelevel("a/b/."), "a/b/-");
    assert_eq!(sanitize_git_ref_onelevel("ab.."), "ab.-");
}

#[test]
fn branch_name_does_not_contain_ampersand_open_brace() {
    let out = sanitize_git_ref_onelevel("refs/heads/master-@{-branch");
    assert!(!out.contains("@{"));
    assert_eq!(out, "refs/heads/master-branch");
}

#[test]
fn branch_name_does_not_contain_ampersand() {
    let out = sanitize_git_ref_onelevel("refs/heads/master-@-branch");
    assert!(!out.contains('@'));
    assert_eq!(out, "refs/heads/master-branch");
}

#[test]
fn branch_name_does_not_contain_backslash() {
    let out = sanitize_git_ref_onelevel(r"refs/heads/master-\-branch");
    assert!(!out.contains('\\'));
    assert_eq!(out, "refs/heads/master-branch");
}

#[test]
fn hyphen_runs_collapse_to_one() {
    assert_eq!(sanitize_git_ref_onelevel("a---b"), "a-b");
    assert_eq!(sanitize_git_ref_onelevel("a?*[b"), "a-b");
}

#[test]
fn empty_input_gives_empty_output() {
    assert_eq!(sanitize_git_ref_onelevel(""), "");
}

#[test]
fn only_separators_and_dots_give_empty_output() {
    assert_eq!(sanitize_git_ref_onelevel("/"), "");
    assert_eq!(sanitize_git_ref_onelevel("."), "-");
    assert_eq!(sanitize_git_ref_onelevel("/./"), "-");
    assert_eq!(sanitize_git_ref_onelevel("//"), "-");
}

#[test]
fn valid_names_are_kept() {
    assert_eq!(sanitize_git_ref_onelevel("refs/heads/main"), "refs/heads/main");
    assert_eq!(sanitize_git_ref_onelevel("v1.2.3"), "v1.2.3");
    assert_eq!(sanitize_git_ref_onelevel("main"), "main");
}

/// All strings of up to `n` characters over `alphabet`.
fn all_strings(alphabet: &[char], n: usize) -> Vec<String> {
    let mut out = vec![String::new()];
    let mut layer = vec![String::new()];
    for _ in 0..n {
        let mut next = Vec::new();
        for s in &layer {
            for c in alphabet {
                let mut t = s.clone();
                t.push(*c);
                next.push(t);
            }
        }
        out.extend(next.iter().cloned());
        layer = next;
    }
    out
}

const ALPHABET: [char; 12] = ['.', '/', '-', '@', '{', 'l', 'o', 'c', 'k', ' ', '\u{1}', 'a'];

#[test]
fn every_output_obeys_every_rule() {
    for s in all_strings(&ALPHABET, 5) {
        let out = sanitize_git_ref_onelevel(&s);
        assert!(obeys_every_rule(&out), "{:?} gave {:?}", s, out);
    }
}

#[test]
fn lock_sequences_never_survive() {
    let letters = ['.', 'l', 'o', 'c', 'k', '/'];
    for s in all_strings(&letters, 7) {
        let out = sanitize_git_ref_onelevel(&s);
        assert!(!out.contains(".lock"), "{:?} gave {:?}", s, out);
        assert!(obeys_every_rule(&out), "{:?} gave {:?}", s, out);
    }
}

#[test]
fn sanitizing_twice_changes_nothing() {
    for s in all_strings(&ALPHABET, 4) {
        let once = sanitize_git_ref_onelevel(&s);
        let twice = sanitize_git_ref_onelevel(&once);
        assert_eq!(once, twice, "input {:?}", s);
    }
}

#[test]
fn error_message_and_source() {
    let e = SanitizeGitRefError::DoesNotContainForwardSlash;
    assert_eq!(e.message(), "Ref must contain at least one '/'");
    assert_eq!(e.source(), None);
}
