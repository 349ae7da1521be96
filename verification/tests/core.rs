use std::path::Path;

use viban::auth::{authorized, constant_time_eq};
use viban::board::{default_board_name, default_columns, pending_migrations};
use viban::exec::shell_invocation;
use viban::paths::{data_dir_from, hex16, join_path, project_data_dir, project_key};
use viban::{millis_since_epoch, new_id, now_millis, VERSION};

#[test]
fn now_millis_is_a_plausible_timestamp() {
    let now = now_millis();
    // Sanity bounds: after 2020-01-01 and before 2100-01-01.
    assert!(now > 1_577_836_800_000, "timestamp should be after 2020");
    assert!(now < 4_102_444_800_000, "timestamp should be before 2100");
}

#[test]
fn version_is_populated_from_cargo() {
    assert!(!VERSION.is_empty(), "crate version must not be empty");
}

#[test]
fn new_id_is_unique_and_a_valid_uuid() {
    let a = new_id().expect("the OS random source is available");
    let b = new_id().expect("the OS random source is available");
    assert_ne!(a, b, "ids must be unique");
    assert_eq!(a.len(), 36, "a uuid v4 string is 36 characters");
    assert!(
        uuid::Uuid::parse_str(&a).is_ok(),
        "new_id must produce a valid uuid"
    );
    let parsed = uuid::Uuid::parse_str(&a).expect("valid");
    assert_eq!(parsed.get_version(), Some(uuid::Version::Random));
    assert_eq!(parsed.get_variant(), uuid::Variant::RFC4122);
    assert_eq!(a, a.to_lowercase());
}

#[test]
fn project_data_dir_is_under_the_override_base() {
    let base = Path::new("/tmp/vibandata");
    let dir = project_data_dir(Some("/tmp/vibandata"), "/some/project").expect("dir");
    assert!(Path::new(&dir).starts_with(base));
    assert!(dir.contains("projects"));
}

#[test]
fn project_key_is_stable_and_distinct() {
    let a1 = project_data_dir(Some("/d"), "/proj/a").expect("a");
    let a2 = project_data_dir(Some("/d"), "/proj/a").expect("a");
    let b = project_data_dir(Some("/d"), "/proj/b").expect("b");
    assert_eq!(a1, a2, "the same workspace always maps to the same dir");
    assert_ne!(a1, b, "different workspaces map to different dirs");
}

#[test]
fn project_key_is_the_fnv1a_hash_in_hex() {
    // FNV-1a of the empty input is the offset basis.
    assert_eq!(project_key(""), "cbf29ce484222325");
    assert_eq!(project_key("a"), "af63dc4c8601ec8c");
    assert_eq!(
        project_data_dir(Some("/d/"), "").expect("dir"),
        "/d/projects/cbf29ce484222325"
    );
}

#[test]
fn constant_time_eq_compares_whole_slices() {
    assert!(constant_time_eq(b"token", b"token"));
    assert!(!constant_time_eq(b"token", b"tokem"));
    assert!(!constant_time_eq(b"token", b"toke"));
    assert!(constant_time_eq(b"", b""));
    assert!(authorized("secret", "secret"));
    assert!(!authorized("not-the-real-token", "secret"));
}

#[test]
fn default_board_name_is_the_folder_name() {
    assert_eq!(default_board_name("/tmp/proj"), "proj");
    assert_eq!(default_board_name("/tmp/proj/"), "proj");
    assert_eq!(default_board_name("/tmp/proj/."), "proj");
    assert_eq!(default_board_name("/"), "Board");
    assert_eq!(default_board_name("/tmp/.."), "Board");
    assert_eq!(default_board_name(""), "Board");
}

#[test]
fn default_columns_are_the_four_stages_in_order() {
    let ids = vec!["c0".to_string(), "c1".to_string(), "c2".to_string(), "c3".to_string()];
    let columns = default_columns("b", ids);
    let names: Vec<&str> = columns.iter().map(|c| c.name.as_str()).collect();
    assert_eq!(names, vec!["Backlog", "In Progress", "Review", "Done"]);
    assert_eq!(columns[2].id, "c2");
    assert_eq!(columns[3].position, 3);
}

#[test]
fn pending_migrations_are_the_newer_versions() {
    assert_eq!(pending_migrations(0, 5), vec![1, 2, 3, 4, 5]);
    assert_eq!(pending_migrations(3, 5), vec![4, 5]);
    assert!(pending_migrations(5, 5).is_empty());
}

#[test]
fn commands_run_through_sh() {
    let (program, args) = shell_invocation("echo hello");
    assert_eq!(program, "sh");
    assert_eq!(args, vec!["-c", "echo hello"]);
}

#[test]
fn project_keys_are_sixteen_hex_digits() {
    for path in ["", "/some/project", "C:\\Users\\me\\proj", "/tmp/é"] {
        let key = project_key(path);
        assert_eq!(key.len(), 16);
        assert!(key.chars().all(|c| c.is_ascii_digit() || ('a'..='f').contains(&c)));
    }
}

#[test]
fn hex16_pads_to_sixteen_digits() {
    assert_eq!(hex16(0xff).into_iter().collect::<String>(), "00000000000000ff");
    assert_eq!(hex16(u64::MAX).into_iter().collect::<String>(), "ffffffffffffffff");
}

#[test]
fn join_path_inserts_one_separator() {
    assert_eq!(join_path("/a/b", "c"), "/a/b/c");
    assert_eq!(join_path("/a/b/", "c"), "/a/b/c");
    assert_eq!(join_path("", "c"), "c");
}

#[test]
fn millis_since_epoch_converts_a_clock_reading() {
    assert_eq!(millis_since_epoch(Some(1_700_000_000_123)), 1_700_000_000_123);
    assert_eq!(millis_since_epoch(None), 0);
    assert_eq!(millis_since_epoch(Some(u64::MAX as u128 + 1)), 0);
}

#[test]
fn data_dir_from_joins_viban_projects_and_the_key() {
    let dir = data_dir_from(Some("/home/u/.local/share"), "/proj/a").expect("dir");
    assert_eq!(dir, format!("/home/u/.local/share/viban/projects/{}", project_key("/proj/a")));
    assert_eq!(
        data_dir_from(None, "/proj/a"),
        Err("cannot resolve the OS data directory".to_string())
    );
    assert_eq!(
        project_data_dir(Some("/d"), "/proj/a"),
        project_data_dir(Some("/d"), "/proj/a")
    );
    assert_ne!(
        project_data_dir(Some("/d"), "/proj/a"),
        project_data_dir(Some("/d"), "/proj/b")
    );
}
