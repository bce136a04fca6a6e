use secrets_manager::config::{
    check_parts, contains_path, dot_segment, find_invalid, find_repeated, find_shared, get_config_file, load_config,
    local_config_file, occurs_twice, owned, save_config, to_valid_imports, to_valid_path,
    to_valid_secrets, user_config_file, ConfigDir, InvalidImports, InvalidPath, InvalidSecrets,
    LoadConfigError, ProfileTable,
};
use secrets_manager::effects::Request;
use secrets_manager::utf8path_ext::PathPart;

fn paths(items: &[&str]) -> Vec<String> {
    items.iter().map(|s| s.to_string()).collect()
}

fn table(entries: &[(&str, &[&str])]) -> ProfileTable {
    let mut t = ProfileTable::new();
    for (name, items) in entries {
        t.insert(name.to_string(), paths(items));
    }
    t
}

#[test]
fn to_valid_path_accepts_relative_normalized_paths() {
    for p in ["db.key", "dir/db.key", "a/b/c", "a//b", "a/b/", "", ".hidden", "a/...", "a/.b", "a./b"] {
        assert_eq!(to_valid_path(p.to_owned()), Ok(p.to_owned()), "{:?}", p);
    }
}

#[test]
fn to_valid_path_refuses_a_root() {
    assert_eq!(to_valid_path("/etc/key".to_owned()), Err(InvalidPath::Root("/etc/key".to_owned())));
    assert_eq!(to_valid_path("/".to_owned()), Err(InvalidPath::Root("/".to_owned())));
}

#[test]
fn to_valid_path_refuses_a_current_dir() {
    assert_eq!(to_valid_path("./key".to_owned()), Err(InvalidPath::Current("./key".to_owned())));
    assert_eq!(to_valid_path(".".to_owned()), Err(InvalidPath::Current(".".to_owned())));
}

#[test]
fn to_valid_path_refuses_a_dot_at_any_place() {
    for p in ["a/./b", "a/b/.", "a/.", "a/./", "a/././b", "a//./b"] {
        assert_eq!(to_valid_path(p.to_owned()), Err(InvalidPath::Current(p.to_owned())), "{:?}", p);
    }
}

#[test]
fn dot_segment_finds_a_single_dot_between_separators() {
    for p in [".", "./a", "a/./b", "a/.", "/."] {
        assert!(dot_segment(p), "{:?}", p);
    }
    for p in ["", "a", "..", "a/../b", ".a", "a.", "a/.b/c", "a/b./c", "..."] {
        assert!(!dot_segment(p), "{:?}", p);
    }
}

#[test]
fn check_parts_refuses_a_dot_that_the_components_do_not_show() {
    let parts = vec![PathPart::Normal("a".to_owned()), PathPart::Normal("b".to_owned())];
    assert_eq!(
        check_parts("a/./b".to_owned(), &parts),
        Err(InvalidPath::Current("a/./b".to_owned()))
    );
    assert_eq!(check_parts("a/b".to_owned(), &parts), Ok("a/b".to_owned()));
    let parts = vec![PathPart::Normal("a".to_owned()), PathPart::ParentDir];
    assert_eq!(
        check_parts("a/./..".to_owned(), &parts),
        Err(InvalidPath::Parent("a/./..".to_owned()))
    );
}

#[test]
fn to_valid_path_refuses_a_parent_dir() {
    assert_eq!(to_valid_path("../key".to_owned()), Err(InvalidPath::Parent("../key".to_owned())));
    assert_eq!(to_valid_path("a/../b".to_owned()), Err(InvalidPath::Parent("a/../b".to_owned())));
}

#[test]
fn to_valid_path_reports_the_first_offending_component() {
    assert_eq!(to_valid_path("/a/../b".to_owned()), Err(InvalidPath::Root("/a/../b".to_owned())));
    assert_eq!(to_valid_path("./../b".to_owned()), Err(InvalidPath::Current("./../b".to_owned())));
}

#[test]
fn profile_table_keeps_one_entry_per_name() {
    let mut t = ProfileTable::new();
    assert_eq!(t.len(), 0);
    t.insert("alice".to_owned(), paths(&["a"]));
    t.insert("bob".to_owned(), paths(&["b", "c"]));
    t.insert("alice".to_owned(), paths(&["d"]));
    assert_eq!(t.len(), 2);
    assert_eq!(t.name(0), "alice");
    assert_eq!(t.paths(0), &paths(&["d"]));
    assert_eq!(t.name(1), "bob");
    assert_eq!(t.get("bob"), paths(&["b", "c"]));
    assert_eq!(t.get("alice"), paths(&["d"]));
    assert_eq!(t.get("carol"), Vec::<String>::new());
    assert_eq!(t.position("bob"), Some(1));
    assert_eq!(t.position("carol"), None);
}

#[test]
fn path_list_helpers_compare_by_components() {
    let list = paths(&["a/b", "c", "a//b"]);
    assert!(contains_path(&list, "c"));
    assert!(contains_path(&list, "a/b/"));
    assert!(!contains_path(&list, "d"));
    assert!(occurs_twice(&list, 0));
    assert!(!occurs_twice(&list, 1));
    assert!(occurs_twice(&list, 2));
    assert_eq!(find_repeated(&list), Some(0));
    assert_eq!(find_repeated(&paths(&["a", "b"])), None);
    assert_eq!(find_shared(&paths(&["x", "c", "a/b"]), &list), Some(1));
    assert_eq!(find_shared(&paths(&["x", "y"]), &list), None);
    assert_eq!(
        find_invalid(&paths(&["a", "../b", "/c"])),
        Some((1, InvalidPath::Parent("../b".to_owned())))
    );
    assert_eq!(find_invalid(&paths(&["a", "b"])), None);
}

#[test]
fn to_valid_secrets_accepts_exclusive_secrets() {
    let t = table(&[("alice", &["db.key", "dir/a"]), ("bob", &["dir/b"]), ("carol", &[])]);
    let expected = table(&[("alice", &["db.key", "dir/a"]), ("bob", &["dir/b"]), ("carol", &[])]);
    assert_eq!(to_valid_secrets(t), Ok(expected));
}

#[test]
fn to_valid_secrets_refuses_an_invalid_path() {
    let t = table(&[("alice", &["db.key"]), ("bob", &["ok", "/abs"])]);
    assert_eq!(
        to_valid_secrets(t),
        Err(InvalidSecrets::InvalidPath("bob".to_owned(), InvalidPath::Root("/abs".to_owned())))
    );
}

#[test]
fn to_valid_secrets_refuses_a_repeated_secret() {
    let t = table(&[("alice", &["a", "b", "a"])]);
    assert_eq!(
        to_valid_secrets(t),
        Err(InvalidSecrets::MultipleSecretDeclaration("alice".to_owned(), "a".to_owned()))
    );
}

#[test]
fn to_valid_secrets_refuses_a_secret_with_two_owners() {
    let t = table(&[("alice", &["x", "db.key"]), ("bob", &["y"]), ("carol", &["z", "db.key"])]);
    assert_eq!(
        to_valid_secrets(t),
        Err(InvalidSecrets::MultipleSecretOwnership(
            "alice".to_owned(),
            "carol".to_owned(),
            "db.key".to_owned()
        ))
    );
}

#[test]
fn to_valid_secrets_finds_two_owners_of_the_same_path_written_differently() {
    let t = table(&[("alice", &["dir/db.key"]), ("bob", &["dir//db.key"])]);
    assert_eq!(
        to_valid_secrets(t),
        Err(InvalidSecrets::MultipleSecretOwnership(
            "alice".to_owned(),
            "bob".to_owned(),
            "dir/db.key".to_owned()
        ))
    );
}

#[test]
fn to_valid_secrets_checks_paths_before_repeats_before_owners() {
    let t = table(&[("alice", &["a", "a"]), ("bob", &["a", "../x"])]);
    assert_eq!(
        to_valid_secrets(t),
        Err(InvalidSecrets::InvalidPath("bob".to_owned(), InvalidPath::Parent("../x".to_owned())))
    );
    let t = table(&[("alice", &["a"]), ("bob", &["a", "b", "b"])]);
    assert_eq!(
        to_valid_secrets(t),
        Err(InvalidSecrets::MultipleSecretDeclaration("bob".to_owned(), "b".to_owned()))
    );
}

#[test]
fn to_valid_imports_accepts_imports_owned_by_others() {
    let secrets = table(&[("alice", &["db.key"]), ("bob", &["api.key"])]);
    let imports = table(&[("alice", &["api.key"]), ("carol", &["db.key", "api.key"])]);
    let expected = table(&[("alice", &["api.key"]), ("carol", &["db.key", "api.key"])]);
    assert_eq!(to_valid_imports(&secrets, imports), Ok(expected));
}

#[test]
fn to_valid_imports_refuses_an_invalid_path() {
    let secrets = table(&[("alice", &["db.key"])]);
    let imports = table(&[("bob", &["db.key", "./db.key"])]);
    assert_eq!(
        to_valid_imports(&secrets, imports),
        Err(InvalidImports::InvalidPath(
            "bob".to_owned(),
            InvalidPath::Current("./db.key".to_owned())
        ))
    );
}

#[test]
fn to_valid_imports_refuses_a_repeated_import() {
    let secrets = table(&[("alice", &["db.key"])]);
    let imports = table(&[("bob", &["db.key", "db.key"])]);
    assert_eq!(
        to_valid_imports(&secrets, imports),
        Err(InvalidImports::MultipleDeclaration("bob".to_owned(), "db.key".to_owned()))
    );
}

#[test]
fn to_valid_imports_refuses_an_import_of_an_own_secret() {
    let secrets = table(&[("alice", &["db.key"]), ("bob", &["api.key"])]);
    let imports = table(&[("alice", &["api.key", "db.key"])]);
    assert_eq!(
        to_valid_imports(&secrets, imports),
        Err(InvalidImports::DeclaredRedundant("alice".to_owned(), "db.key".to_owned()))
    );
}

#[test]
fn to_valid_imports_refuses_an_import_that_nobody_owns() {
    let secrets = table(&[("alice", &["db.key"])]);
    let imports = table(&[("bob", &["db.key", "ghost.key"])]);
    assert_eq!(
        to_valid_imports(&secrets, imports),
        Err(InvalidImports::DeclaredMissing("bob".to_owned(), "ghost.key".to_owned()))
    );
}

#[test]
fn to_valid_imports_reports_a_repeat_before_redundancy() {
    let secrets = table(&[("alice", &["db.key"])]);
    let imports = table(&[("alice", &["db.key", "db.key"])]);
    assert_eq!(
        to_valid_imports(&secrets, imports),
        Err(InvalidImports::MultipleDeclaration("alice".to_owned(), "db.key".to_owned()))
    );
}

#[test]
fn owned_looks_through_every_profile() {
    let secrets = table(&[("alice", &["db.key"]), ("bob", &["dir/api.key"])]);
    assert!(owned(&secrets, "db.key"));
    assert!(owned(&secrets, "dir//api.key"));
    assert!(!owned(&secrets, "api.key"));
}

#[test]
fn load_config_keeps_source_and_tables() {
    let secrets = table(&[("alice", &["db.key"]), ("bob", &["api.key"])]);
    let imports = table(&[("alice", &["api.key"])]);
    let config = load_config("cfg.toml", "the source".to_owned(), secrets, imports).unwrap();
    assert_eq!(config.source(), "the source");
    assert_eq!(config.secrets().get("alice"), paths(&["db.key"]));
    assert_eq!(config.additional_imports().get("alice"), paths(&["api.key"]));
    assert_eq!(config.additional_imports().get("bob"), Vec::<String>::new());
}

#[test]
fn load_config_names_the_file_of_refused_secrets() {
    let secrets = table(&[("alice", &["db.key"]), ("bob", &["db.key"])]);
    let imports = table(&[]);
    assert_eq!(
        load_config("cfg.toml", String::new(), secrets, imports).unwrap_err(),
        LoadConfigError::InvalidSecrets(
            "cfg.toml".to_owned(),
            InvalidSecrets::MultipleSecretOwnership(
                "alice".to_owned(),
                "bob".to_owned(),
                "db.key".to_owned()
            )
        )
    );
}

#[test]
fn load_config_names_the_file_of_refused_imports() {
    let secrets = table(&[("alice", &["db.key"])]);
    let imports = table(&[("alice", &["db.key"])]);
    assert_eq!(
        load_config("cfg.toml", String::new(), secrets, imports).unwrap_err(),
        LoadConfigError::InvalidImports(
            "cfg.toml".to_owned(),
            InvalidImports::DeclaredRedundant("alice".to_owned(), "db.key".to_owned())
        )
    );
}

#[test]
fn get_config_file_prefers_the_user_file() {
    let dir = ConfigDir::Known("/home/u/.config".to_owned());
    assert_eq!(
        get_config_file(dir.clone(), true, true),
        Ok("/home/u/.config/secrets-manager/secrets-manager.toml".to_owned())
    );
    assert_eq!(get_config_file(dir.clone(), false, true), Ok("./secrets-manager.toml".to_owned()));
    assert_eq!(get_config_file(dir, false, false), Err(LoadConfigError::MissingConfig));
    assert_eq!(user_config_file("cfg"), "cfg/secrets-manager/secrets-manager.toml");
    assert_eq!(local_config_file(), "./secrets-manager.toml");
}

#[test]
fn get_config_file_needs_a_known_directory() {
    assert_eq!(
        get_config_file(ConfigDir::Unknown, true, true),
        Err(LoadConfigError::GetConfigDir)
    );
    assert_eq!(
        get_config_file(ConfigDir::NotUtf8("/home/\u{fffd}".to_owned()), true, true),
        Err(LoadConfigError::Utf8ConfigDir("/home/\u{fffd}".to_owned()))
    );
}

#[test]
fn save_config_writes_the_source_text_as_it_was_read() {
    let source = "# a comment\n[secrets]\nalice = [\"db.key\"]\n";
    let config =
        load_config("cfg.toml", source.to_owned(), table(&[("alice", &["db.key"])]), table(&[]))
            .unwrap();
    assert_eq!(
        save_config("out/secrets-manager.toml", &config),
        Request::WriteText { path: "out/secrets-manager.toml".to_owned(), text: source.to_owned() }
    );
}
