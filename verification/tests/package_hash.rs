use cargo_monorepo::hash::HashItem;
use cargo_monorepo::package::{build_package_item, Link, Manifest, Member, Workspace};
use cargo_monorepo::sources::Sources;

fn manifest(name: &str, version: &str) -> Manifest {
    Manifest {
        name: name.to_string(),
        version: version.to_string(),
        authors: vec!["Someone <someone@example.com>".to_string()],
        description: Some("A package".to_string()),
        license: None,
        license_file: None,
        categories: vec![],
        keywords: vec!["one".to_string(), "two".to_string()],
        readme: Some("README.md".to_string()),
        repository: None,
        edition: "2021".to_string(),
        links: None,
    }
}

fn member(name: &str, version: &str, links: Vec<Link>, lib: &[u8], tags: &[u8]) -> Member {
    Member {
        manifest: manifest(name, version),
        root: format!("/workspace/{}", name),
        links,
        sources: Sources::new()
            .insert("Cargo.toml", name.as_bytes().to_vec())
            .insert("src/lib.rs", lib.to_vec())
            .insert("tags.toml", tags.to_vec()),
        pin_file: Some("tags.toml".to_string()),
    }
}

fn workspace(q_source: &[u8], r_id: &str, p_tags: &[u8]) -> Workspace {
    Workspace {
        members: vec![
            member(
                "p",
                "0.1.0",
                vec![
                    Link::Workspace("q".to_string()),
                    Link::External(r_id.to_string()),
                ],
                b"p source",
                p_tags,
            ),
            member("q", "1.0.0", vec![], q_source, b"q tags"),
        ],
    }
}

fn optional(items: Vec<HashItem>) -> HashItem {
    HashItem::List(items)
}

fn expected_item(name: &str, version: &str, links: &[&str], lib: &[u8]) -> HashItem {
    let text = |value: &str| HashItem::String(value.to_string());
    let file = |path: &str, bytes: &[u8]| {
        HashItem::List(vec![
            HashItem::named("path", HashItem::Path(path.to_string())),
            HashItem::named("bytes", HashItem::Bytes(bytes.to_vec())),
        ])
    };
    HashItem::List(vec![
        HashItem::named("name", text(name)),
        HashItem::named("version", HashItem::SemanticVersion(version.to_string())),
        HashItem::named(
            "authors",
            HashItem::List(vec![text("Someone <someone@example.com>")]),
        ),
        HashItem::named("description", optional(vec![text("A package")])),
        HashItem::named("license", optional(vec![])),
        HashItem::named("license_file", optional(vec![])),
        HashItem::named("categories", HashItem::List(vec![])),
        HashItem::named("keywords", HashItem::List(vec![text("one"), text("two")])),
        HashItem::named(
            "readme",
            optional(vec![HashItem::Path("README.md".to_string())]),
        ),
        HashItem::named("repository", optional(vec![])),
        HashItem::named("edition", text("2021")),
        HashItem::named("links", optional(vec![])),
        HashItem::named(
            "direct_links",
            HashItem::List(
                links
                    .iter()
                    .map(|link| HashItem::named("dependency", text(link)))
                    .collect(),
            ),
        ),
        HashItem::named(
            "sources",
            HashItem::List(vec![
                file("Cargo.toml", name.as_bytes()),
                file("src/lib.rs", lib),
            ]),
        ),
    ])
}

#[test]
fn package_hash_folds_links_and_sources() {
    let workspace = workspace(b"q source", "R 2.3.1", b"p tags");
    let q_hash = workspace.hash_package("q").unwrap();
    assert_eq!(
        q_hash,
        format!(
            "sha256:{}",
            expected_item("q", "1.0.0", &[], b"q source").hash()
        )
    );
    let p_hash = workspace.hash_package("p").unwrap();
    assert_eq!(
        p_hash,
        format!(
            "sha256:{}",
            expected_item("p", "0.1.0", &[q_hash.as_str(), "R 2.3.1"], b"p source").hash()
        )
    );
    assert_eq!(p_hash.len(), "sha256:".len() + 64);
    assert_eq!(workspace.hash_package("p").unwrap(), p_hash);
}

#[test]
fn package_hash_changes_with_a_linked_member() {
    let before = workspace(b"q source", "R 2.3.1", b"p tags");
    let after = workspace(b"q source changed", "R 2.3.1", b"p tags");
    assert_ne!(
        before.hash_package("q").unwrap(),
        after.hash_package("q").unwrap()
    );
    assert_ne!(
        before.hash_package("p").unwrap(),
        after.hash_package("p").unwrap()
    );
}

#[test]
fn package_hash_changes_with_an_external_version() {
    let before = workspace(b"q source", "R 2.3.1", b"p tags");
    let after = workspace(b"q source", "R 2.3.2", b"p tags");
    assert_eq!(
        before.hash_package("q").unwrap(),
        after.hash_package("q").unwrap()
    );
    assert_ne!(
        before.hash_package("p").unwrap(),
        after.hash_package("p").unwrap()
    );
}

#[test]
fn package_hash_ignores_the_pin_file() {
    let before = workspace(b"q source", "R 2.3.1", b"p tags");
    let after = workspace(b"q source", "R 2.3.1", b"p tags changed");
    assert_eq!(
        before.hash_package("p").unwrap(),
        after.hash_package("p").unwrap()
    );
    let mut without_pin = workspace(b"q source", "R 2.3.1", b"p tags");
    without_pin.members[0].sources.remove("tags.toml");
    assert_eq!(
        before.hash_package("p").unwrap(),
        without_pin.hash_package("p").unwrap()
    );
    let mut hashed_pin = workspace(b"q source", "R 2.3.1", b"p tags");
    hashed_pin.members[0].pin_file = None;
    assert_ne!(
        before.hash_package("p").unwrap(),
        hashed_pin.hash_package("p").unwrap()
    );
}

#[test]
fn package_hash_of_unknown_package_fails() {
    let workspace = workspace(b"q source", "R 2.3.1", b"p tags");
    let error = workspace.hash_package("missing").unwrap_err();
    assert_eq!(error.description(), "package not found");
    assert_eq!(
        error.explanation(),
        Some("A cargo package with the given name (missing) could not be found.")
    );
    let broken = Workspace {
        members: vec![member(
            "p",
            "0.1.0",
            vec![Link::Workspace("gone".to_string())],
            b"",
            b"",
        )],
    };
    let error = broken.hash_package("p").unwrap_err();
    assert_eq!(
        error.explanation(),
        Some("A cargo package with the given name (gone) could not be found.")
    );
}

#[test]
fn package_hash_of_cyclic_members_fails() {
    let cyclic = Workspace {
        members: vec![
            member("a", "1.0.0", vec![Link::Workspace("b".to_string())], b"", b""),
            member("b", "1.0.0", vec![Link::Workspace("a".to_string())], b"", b""),
        ],
    };
    let error = cyclic.hash_package("a").unwrap_err();
    assert_eq!(error.description(), "cyclic workspace dependency");
    let chain = Workspace {
        members: vec![
            member("a", "1.0.0", vec![Link::Workspace("b".to_string())], b"", b""),
            member("b", "1.0.0", vec![Link::Workspace("c".to_string())], b"", b""),
            member("c", "1.0.0", vec![], b"", b""),
        ],
    };
    assert!(chain.hash_package("a").is_ok());
}

#[test]
fn package_item_has_fields_in_fixed_order() {
    let sources = Sources::new()
        .insert("src/lib.rs", b"lib".to_vec())
        .insert("Cargo.toml", b"p".to_vec());
    let item = build_package_item(
        &manifest("p", "0.1.0"),
        &vec!["R 2.3.1".to_string()],
        &sources,
    );
    assert_eq!(
        item.encode(),
        expected_item("p", "0.1.0", &["R 2.3.1"], b"lib").encode()
    );
}
