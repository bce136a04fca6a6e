use secrets_manager::utf8path_ext::{
    extend_name, part_eq, same_parts, same_path, ExtraUtf8Path, PathPart,
};

#[test]
fn add_extension_appends_to_the_file_name() {
    assert_eq!("db.key".add_extension("age"), "db.key.age");
    assert_eq!("dir/db.key".add_extension("sha256"), "dir/db.key.sha256");
    assert_eq!("/secrets/db".add_extension("age"), "/secrets/db.age");
    assert_eq!(String::from("a/b").add_extension("age"), "a/b.age");
}

#[test]
fn add_extension_leaves_a_path_without_file_name_alone() {
    assert_eq!("".add_extension("age"), "");
    assert_eq!("/".add_extension("age"), "/");
    assert_eq!("a/..".add_extension("age"), "a/..");
}

#[test]
fn add_extension_drops_what_follows_the_file_name() {
    assert_eq!("dir/db.key/".add_extension("age"), "dir/db.key.age");
}

#[test]
fn same_path_compares_components() {
    assert!(same_path("a/b", "a/b"));
    assert!(same_path("a//b", "a/b"));
    assert!(same_path("a/b/", "a/b"));
    assert!(same_path("a/./b", "a/b"));
    assert!(!same_path("a/b", "a/c"));
    assert!(!same_path("a/b", "a"));
    assert!(!same_path("/a", "a"));
    assert!(!same_path("./a", "a"));
    assert!(!same_path("a/../b", "b"));
    assert!(same_path("", ""));
}

#[test]
fn part_eq_tells_components_apart() {
    let a = PathPart::Normal("a".to_owned());
    let b = PathPart::Normal("b".to_owned());
    assert!(part_eq(&a, &a));
    assert!(!part_eq(&a, &b));
    assert!(part_eq(&PathPart::RootDir, &PathPart::RootDir));
    assert!(!part_eq(&PathPart::RootDir, &PathPart::CurDir));
    assert!(!part_eq(&PathPart::ParentDir, &a));
    assert!(part_eq(&PathPart::ParentDir, &PathPart::ParentDir));
    assert!(part_eq(&PathPart::CurDir, &PathPart::CurDir));
    assert!(!part_eq(&PathPart::Prefix("C:".to_owned()), &PathPart::Prefix("D:".to_owned())));
}

#[test]
fn extend_name_appends_to_the_name_it_is_given() {
    assert_eq!(extend_name("dir/db.key", Some("db.key".to_owned()), "age"), "dir/db.key.age");
    assert_eq!(extend_name("dir/db.key", Some("other".to_owned()), "age"), "dir/other.age");
    assert_eq!(extend_name("dir/db.key", None, "age"), "dir/db.key");
}

#[test]
fn same_parts_compares_lists_of_components() {
    let a = vec![PathPart::Normal("a".to_owned()), PathPart::Normal("b".to_owned())];
    let b = vec![PathPart::Normal("a".to_owned()), PathPart::Normal("b".to_owned())];
    let c = vec![PathPart::Normal("a".to_owned()), PathPart::ParentDir];
    let d = vec![PathPart::Normal("a".to_owned())];
    assert!(same_parts(&a, &b));
    assert!(!same_parts(&a, &c));
    assert!(!same_parts(&a, &d));
    assert!(same_parts(&vec![], &vec![]));
}
