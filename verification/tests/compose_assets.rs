use codex_providers::compose_assets::{
    compose_cache_root_dir, compose_install_action, compose_marker_path,
    embedded_compose_skills_fingerprint, fingerprint_items, lower_hex_exec, marker_contents_exec,
    marker_from_file_text, ComposeInstallAction, EmbeddedDir, EmbeddedEntry, EmbeddedFile,
};

fn file(path: &str, contents: &[u8]) -> EmbeddedEntry {
    EmbeddedEntry::File(EmbeddedFile {
        path: path.to_string(),
        contents: contents.to_vec(),
    })
}

fn sample_tree(ask_contents: &[u8]) -> EmbeddedDir {
    EmbeddedDir {
        path: String::new(),
        entries: vec![
            EmbeddedEntry::Dir(EmbeddedDir {
                path: "plan".to_string(),
                entries: vec![file("plan/SKILL.md", b"plan")],
            }),
            EmbeddedEntry::Dir(EmbeddedDir {
                path: "ask".to_string(),
                entries: vec![file("ask/SKILL.md", ask_contents), file("ask/notes.txt", b"n")],
            }),
            file("README.md", b"readme"),
        ],
    }
}

#[test]
fn lower_hex_formats_like_format_x() {
    assert_eq!(lower_hex_exec(0), "0");
    assert_eq!(lower_hex_exec(10), "a");
    assert_eq!(lower_hex_exec(255), "ff");
    assert_eq!(lower_hex_exec(4096), "1000");
    assert_eq!(lower_hex_exec(u64::MAX), format!("{:x}", u64::MAX));
    assert_eq!(lower_hex_exec(0xdead_beef), "deadbeef");
}

#[test]
fn fingerprint_items_walk_the_tree_sorted_by_path() {
    let items = fingerprint_items(&sample_tree(b"ask"));
    let paths: Vec<(&str, bool)> = items
        .iter()
        .map(|(path, hash)| (path.as_str(), hash.is_some()))
        .collect();
    assert_eq!(
        paths,
        vec![
            ("README.md", true),
            ("ask", false),
            ("ask/SKILL.md", true),
            ("ask/notes.txt", true),
            ("plan", false),
            ("plan/SKILL.md", true),
        ]
    );
}

#[test]
fn fingerprint_is_lower_hex_and_stable() {
    let first = embedded_compose_skills_fingerprint(&sample_tree(b"ask"));
    let second = embedded_compose_skills_fingerprint(&sample_tree(b"ask"));
    assert_eq!(first, second);
    assert!(!first.is_empty());
    assert!(first.chars().all(|c| c.is_ascii_digit() || ('a'..='f').contains(&c)));
    assert!(first == "0" || !first.starts_with('0'));
}

#[test]
fn fingerprint_does_not_depend_on_entry_order() {
    let mut reordered = sample_tree(b"ask");
    reordered.entries.reverse();
    assert_eq!(
        embedded_compose_skills_fingerprint(&sample_tree(b"ask")),
        embedded_compose_skills_fingerprint(&reordered)
    );
}

#[test]
fn fingerprint_changes_with_file_contents() {
    let first = embedded_compose_skills_fingerprint(&sample_tree(b"ask"));
    let changed = embedded_compose_skills_fingerprint(&sample_tree(b"ask, changed"));
    assert_ne!(first, changed);
}

#[test]
fn marker_text_is_trimmed() {
    assert_eq!(marker_from_file_text("abc123\n"), "abc123");
    assert_eq!(marker_from_file_text("  \tabc \r\n"), "abc");
    assert_eq!(marker_from_file_text("\n"), "");
    assert_eq!(marker_from_file_text("a b"), "a b");
}

#[test]
fn marker_contents_end_with_newline() {
    assert_eq!(marker_contents_exec("abc"), "abc\n");
}

#[test]
fn install_is_skipped_when_marker_matches() {
    assert_eq!(
        compose_install_action(true, true, Some("abc\n"), "abc"),
        ComposeInstallAction::UpToDate
    );
}

#[test]
fn install_replaces_stale_or_missing_skills() {
    assert_eq!(
        compose_install_action(true, true, Some("old\n"), "abc"),
        ComposeInstallAction::Install {
            remove_existing: true,
            marker: "abc\n".to_string(),
        }
    );
    assert_eq!(
        compose_install_action(true, true, None, "abc"),
        ComposeInstallAction::Install {
            remove_existing: true,
            marker: "abc\n".to_string(),
        }
    );
    assert_eq!(
        compose_install_action(false, true, Some("abc\n"), "abc"),
        ComposeInstallAction::Install {
            remove_existing: true,
            marker: "abc\n".to_string(),
        }
    );
    assert_eq!(
        compose_install_action(false, false, None, "abc"),
        ComposeInstallAction::Install {
            remove_existing: false,
            marker: "abc\n".to_string(),
        }
    );
}

#[test]
fn written_marker_reads_back_as_up_to_date() {
    let fingerprint = embedded_compose_skills_fingerprint(&sample_tree(b"ask"));
    let marker = match compose_install_action(false, false, None, &fingerprint) {
        ComposeInstallAction::Install { marker, .. } => marker,
        other => panic!("expected an install, got {other:?}"),
    };
    assert_eq!(
        compose_install_action(true, true, Some(&marker), &fingerprint),
        ComposeInstallAction::UpToDate
    );
}

#[test]
fn compose_cache_paths_live_under_skills() {
    assert_eq!(
        compose_cache_root_dir("/home/user/.codex"),
        "/home/user/.codex/skills/.compose"
    );
    assert_eq!(
        compose_marker_path("/home/user/.codex"),
        "/home/user/.codex/skills/.compose/.codex-compose-skills.marker"
    );
}

#[test]
fn fingerprint_has_at_most_sixteen_digits() {
    let fingerprint = embedded_compose_skills_fingerprint(&sample_tree(b"ask"));
    assert!((1..=16).contains(&fingerprint.len()));
    assert_eq!(lower_hex_exec(u64::MAX).len(), 16);
}
