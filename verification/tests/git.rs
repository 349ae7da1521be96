use viban::git::{
    checkpoint_message, classify, file_diff_of, gitignore_addition, normalize_newlines, parse_status_line,
    path_le, slugify, sort_by_path, FileDiff, FileStatus,
};

#[test]
fn slugify_basics() {
    assert_eq!(slugify("Add login flow"), "add-login-flow");
    assert_eq!(slugify("  Fix: the bug!! "), "fix-the-bug");
    assert_eq!(slugify("***"), "task");
}

#[test]
fn slugify_falls_back_for_empty_or_symbol_only_input() {
    assert_eq!(slugify(""), "task");
    assert_eq!(slugify("   "), "task");
    assert_eq!(slugify("!@#$%"), "task");
}

#[test]
fn slugify_collapses_runs_of_separators_into_single_dashes() {
    assert_eq!(slugify("a---b__c  d"), "a-b-c-d");
    assert_eq!(slugify("Trailing dashes!!!"), "trailing-dashes");
}

#[test]
fn slugify_lowercases_and_keeps_ascii_alphanumerics() {
    assert_eq!(slugify("MixedCase"), "mixedcase");
    assert_eq!(slugify("Hello, World 2024"), "hello-world-2024");
}

#[test]
fn slugify_caps_length_at_forty_characters() {
    let slug = slugify(&"word ".repeat(40));
    assert!(slug.len() <= 40, "slug was {} chars", slug.len());
}

#[test]
fn slugify_uses_unicode_lowercasing() {
    // KELVIN SIGN lowercases to an ASCII 'k'.
    assert_eq!(slugify("\u{212A}ilo"), "kilo");
    assert_eq!(slugify("Café au lait"), "caf-au-lait");
}

#[test]
fn classify_maps_porcelain_codes() {
    assert_eq!(classify(" D"), FileStatus::Deleted);
    assert_eq!(classify("??"), FileStatus::Added);
    assert_eq!(classify("A "), FileStatus::Added);
    assert_eq!(classify(" M"), FileStatus::Modified);
    assert_eq!(classify("AD"), FileStatus::Deleted);
}

#[test]
fn gitignore_addition_appends_once() {
    assert_eq!(gitignore_addition("", ".viban/").as_deref(), Some(".viban/\n"));
    assert_eq!(
        gitignore_addition("target", ".viban/").as_deref(),
        Some("\n.viban/\n")
    );
    assert_eq!(
        gitignore_addition("target\n", ".viban/").as_deref(),
        Some(".viban/\n")
    );
    assert_eq!(gitignore_addition("a\n  .viban/  \r\nb", ".viban/"), None);
}

#[test]
fn gitignore_addition_is_idempotent_once_appended() {
    for existing in ["", "target", "target\n", "a\nb"] {
        let added = gitignore_addition(existing, ".viban/worktrees").expect("not yet listed");
        let combined = format!("{existing}{added}");
        assert_eq!(gitignore_addition(&combined, ".viban/worktrees"), None);
    }
}

#[test]
fn gitignore_addition_appends_again_for_an_entry_with_surrounding_space() {
    let added = gitignore_addition("", " x").expect("not yet listed");
    assert_eq!(added, " x\n");
    assert_eq!(gitignore_addition(&added, " x").as_deref(), Some(" x\n"));
}

#[test]
fn slugs_are_alphanumerics_and_single_dashes() {
    for title in ["  --Hello--  World--", "ÀBC Déf", "İSTANBUL", "a!!b", "***", "x".repeat(80).as_str(), "-lead"] {
        let slug = slugify(title);
        assert!(!slug.is_empty() && slug.chars().count() <= 40);
        assert!(slug.chars().all(|c| c.is_ascii_alphanumeric() || c == '-'));
        assert!(slug.chars().all(|c| c.is_ascii_lowercase() || c.is_ascii_digit() || c == '-'));
        assert!(!slug.starts_with('-'));
        assert!(!slug.contains("--"));
    }
}

#[test]
fn parse_status_line_reads_code_and_path() {
    assert_eq!(
        parse_status_line(" M src/a.rs"),
        Some((FileStatus::Modified, "src/a.rs".to_string()))
    );
    assert_eq!(
        parse_status_line("?? new file.txt "),
        Some((FileStatus::Added, "new file.txt".to_string()))
    );
    assert_eq!(
        parse_status_line("R  old.rs -> new.rs"),
        Some((FileStatus::Modified, "new.rs".to_string()))
    );
    assert_eq!(
        parse_status_line(" D gone.rs"),
        Some((FileStatus::Deleted, "gone.rs".to_string()))
    );
    assert_eq!(parse_status_line(" M "), None);
    assert_eq!(parse_status_line(""), None);
}

#[test]
fn normalize_newlines_turns_crlf_into_lf() {
    assert_eq!(normalize_newlines("a\r\nb\r\n"), "a\nb\n");
    assert_eq!(normalize_newlines("a\rb\n\r"), "a\rb\n\r");
    assert_eq!(normalize_newlines("\r\r\n"), "\r\n");
    assert_eq!(normalize_newlines(""), "");
}

fn diff(path: &str, status: FileStatus) -> FileDiff {
    FileDiff {
        path: path.to_string(),
        status,
        old_text: String::new(),
        new_text: String::new(),
    }
}

#[test]
fn sort_by_path_orders_by_bytes_and_keeps_equal_paths_in_order() {
    let sorted = sort_by_path(vec![
        diff("b.rs", FileStatus::Added),
        diff("a.rs", FileStatus::Added),
        diff("B.rs", FileStatus::Modified),
        diff("a.rs", FileStatus::Deleted),
        diff("é.rs", FileStatus::Added),
        diff("z.rs", FileStatus::Added),
    ]);
    let paths: Vec<&str> = sorted.iter().map(|d| d.path.as_str()).collect();
    assert_eq!(paths, vec!["B.rs", "a.rs", "a.rs", "b.rs", "z.rs", "é.rs"]);
    assert_eq!(sorted[1].status, FileStatus::Added);
    assert_eq!(sorted[2].status, FileStatus::Deleted);
    assert!(sort_by_path(Vec::new()).is_empty());
}

#[test]
fn path_le_is_string_order() {
    for (a, b) in [("a", "b"), ("b", "a"), ("a", "a"), ("ab", "a"), ("a", "ab"), ("é", "z"), ("", "")] {
        assert_eq!(path_le(a, b), a <= b, "{a:?} <= {b:?}");
    }
}

#[test]
fn checkpoint_message_carries_the_label() {
    assert_eq!(checkpoint_message("before refactor"), "viban checkpoint: before refactor");
}

#[test]
fn file_diff_of_keeps_only_the_sides_a_status_has() {
    let added = file_diff_of("a".into(), FileStatus::Added, "ignored", "x\r\ny");
    assert_eq!((added.old_text.as_str(), added.new_text.as_str()), ("", "x\ny"));
    let deleted = file_diff_of("d".into(), FileStatus::Deleted, "old\r\n", "ignored");
    assert_eq!((deleted.old_text.as_str(), deleted.new_text.as_str()), ("old\n", ""));
    let modified = file_diff_of("m".into(), FileStatus::Modified, "a\r\n", "b");
    assert_eq!((modified.old_text.as_str(), modified.new_text.as_str()), ("a\n", "b"));
    assert_eq!(modified.path, "m");
}
