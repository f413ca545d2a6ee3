use routines::directory_entry::{DirectoryCategory, DirectoryEntry};

#[test]
fn root_directory_is_account_one() {
    let root = DirectoryEntry::root_directory();
    assert_eq!(root.category, DirectoryCategory::Account);
    assert_eq!(root.id, 1);
    assert_eq!(root.name, "root");
}

#[test]
fn star_directory_is_directory_zero() {
    let star = DirectoryEntry::star_directory();
    assert_eq!(star.category, DirectoryCategory::Directory);
    assert_eq!(star.id, 0);
    assert_eq!(star.name, "0");
}

#[test]
fn constructors_fill_the_fields() {
    let a = DirectoryEntry::new_account(5, String::from("alice"));
    assert_eq!(a.category, DirectoryCategory::Account);
    assert_eq!(a.id, 5);
    assert_eq!(a.name, "alice");
    let d = DirectoryEntry::new_directory(6, String::from("etc"));
    assert_eq!(d.category, DirectoryCategory::Directory);
    assert_eq!(d.id, 6);
    assert_eq!(d.name, "etc");
}

#[test]
fn defaults_are_unset() {
    assert_eq!(DirectoryCategory::default(), DirectoryCategory::Unset);
    let e = DirectoryEntry::default();
    assert_eq!(e.category, DirectoryCategory::Unset);
    assert_eq!(e.id, u32::MAX);
    assert_eq!(e.name, "");
}

#[test]
fn identity_is_the_id_alone() {
    let a = DirectoryEntry::new_account(5, String::from("alice"));
    let b = DirectoryEntry::new_directory(5, String::from("bob"));
    let c = DirectoryEntry::new_account(6, String::from("alice"));
    assert_eq!(a, b);
    assert_ne!(a, c);
}

#[test]
fn order_is_by_id_alone() {
    let a = DirectoryEntry::new_account(5, String::from("zed"));
    let b = DirectoryEntry::new_directory(6, String::from("ann"));
    assert!(a < b);
    assert!(b > a);
    assert!(a <= DirectoryEntry::new_account(5, String::from("other")));
}
