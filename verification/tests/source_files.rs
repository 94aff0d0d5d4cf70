use cargo_monorepo::hash::{HashItem, Hashable};
use cargo_monorepo::sources::Sources;

fn sources() -> Sources {
    Sources::new()
        .insert("src/lib.rs", b"pub fn f() {}".to_vec())
        .insert("Cargo.toml", b"[package]".to_vec())
        .insert("tags.toml", b"old".to_vec())
}

#[test]
fn sources_contains_what_was_inserted() {
    let sources = sources();
    assert!(sources.contains("Cargo.toml"));
    assert!(sources.contains("src/lib.rs"));
    assert!(!sources.contains("src/main.rs"));
    assert!(!sources.contains(""));
    assert_eq!(sources.len(), 3);
    assert_eq!(sources.get("tags.toml"), Some(&b"old".to_vec()));
    assert_eq!(sources.get("missing"), None);
}

#[test]
fn sources_remove_says_whether_the_file_was_there() {
    let mut sources = sources();
    assert_eq!(sources.remove("tags.toml"), Some(()));
    assert!(!sources.contains("tags.toml"));
    assert_eq!(sources.remove("tags.toml"), None);
    assert_eq!(sources.len(), 2);
    assert!(sources.contains("Cargo.toml"));
    assert!(sources.contains("src/lib.rs"));
}

#[test]
fn sources_insert_replaces_content() {
    let sources = sources().insert("tags.toml", b"new".to_vec());
    assert_eq!(sources.len(), 3);
    assert_eq!(sources.get("tags.toml"), Some(&b"new".to_vec()));
}

#[test]
fn sources_duplicate_is_equal() {
    let sources = sources();
    let copy = sources.duplicate();
    assert_eq!(copy.len(), 3);
    assert_eq!(
        copy.as_hash_item().encode(),
        sources.as_hash_item().encode()
    );
}

#[test]
fn sources_item_lists_files_in_path_order() {
    let file = |path: &str, bytes: &[u8]| {
        HashItem::List(vec![
            HashItem::named("path", HashItem::Path(path.to_string())),
            HashItem::named("bytes", HashItem::Bytes(bytes.to_vec())),
        ])
    };
    let expected = HashItem::List(vec![
        file("Cargo.toml", b"[package]"),
        file("src/lib.rs", b"pub fn f() {}"),
        file("tags.toml", b"old"),
    ]);
    assert_eq!(sources().as_hash_item().encode(), expected.encode());
    let reordered = Sources::new()
        .insert("tags.toml", b"old".to_vec())
        .insert("Cargo.toml", b"[package]".to_vec())
        .insert("src/lib.rs", b"pub fn f() {}".to_vec());
    assert_eq!(reordered.as_hash_item().hash(), sources().as_hash_item().hash());
    assert_eq!(
        Sources::new().as_hash_item().encode(),
        HashItem::List(vec![]).encode()
    );
}

#[test]
fn listed_files_leave_out_what_the_package_manager_adds() {
    let listing = ".cargo_vcs_info.json\nCargo.lock\nCargo.toml\r\nCargo.toml.orig\n\nsrc/lib.rs\n";
    assert_eq!(
        cargo_monorepo::sources::listed_files(listing),
        vec![
            "Cargo.lock".to_string(),
            "Cargo.toml".to_string(),
            "src/lib.rs".to_string()
        ]
    );
    assert_eq!(cargo_monorepo::sources::listed_files(""), Vec::<String>::new());
    assert_eq!(
        cargo_monorepo::sources::listed_files("src/main.rs"),
        vec!["src/main.rs".to_string()]
    );
}
