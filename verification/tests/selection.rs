use cargo_monorepo::aws_lambda::store_check_failed;
use cargo_monorepo::errors::Error;
use cargo_monorepo::package::{Link, Manifest, Member, Workspace};
use cargo_monorepo::selection::{has_link_to, is_changed};
use cargo_monorepo::sources::Sources;
use cargo_monorepo::tags::{conflict, tag_matches, tagging, Tagging};
use cargo_monorepo::term::step_line;

fn member(name: &str, links: &[&str], files: &[&str]) -> Member {
    let root = format!("/ws/{}", name);
    let mut sources = Sources::new();
    for file in files {
        sources = sources.insert(file, vec![]);
    }
    let mut all_links: Vec<Link> = links
        .iter()
        .map(|link| Link::Workspace(link.to_string()))
        .collect();
    all_links.push(Link::External("serde 1.0.0".to_string()));
    Member {
        manifest: Manifest {
            name: name.to_string(),
            version: "1.0.0".to_string(),
            authors: vec![],
            description: None,
            license: None,
            license_file: None,
            categories: vec![],
            keywords: vec![],
            readme: None,
            repository: None,
            edition: "2021".to_string(),
            links: None,
        },
        root,
        links: all_links,
        sources,
        pin_file: None,
    }
}

fn workspace() -> Workspace {
    Workspace {
        members: vec![
            member("tool", &["lib", "core"], &["src/main.rs"]),
            member("core", &[], &["src/lib.rs", "Cargo.toml"]),
            member("lib", &["core"], &["src/lib.rs"]),
            member("app", &["tool"], &["src/main.rs"]),
        ],
    }
}

fn list(names: &[&str]) -> Vec<String> {
    names.iter().map(|name| name.to_string()).collect()
}

#[test]
fn packages_are_listed_by_name() {
    assert_eq!(workspace().packages(), list(&["app", "core", "lib", "tool"]));
    assert_eq!(Workspace { members: vec![] }.packages(), list(&[]));
}

#[test]
fn direct_dependants_follow_member_order() {
    let workspace = workspace();
    assert_eq!(
        workspace.directly_dependant_packages("core"),
        list(&["tool", "lib"])
    );
    assert_eq!(workspace.directly_dependant_packages("tool"), list(&["app"]));
    assert_eq!(workspace.directly_dependant_packages("app"), list(&[]));
    assert_eq!(workspace.directly_dependant_packages("serde 1.0.0"), list(&[]));
    assert!(has_link_to(&workspace.members[0], "lib"));
    assert!(!has_link_to(&workspace.members[0], "app"));
    assert!(!has_link_to(&workspace.members[0], "serde 1.0.0"));
}

#[test]
fn dependants_go_one_member_further() {
    let workspace = workspace();
    assert_eq!(
        workspace.dependant_packages("core"),
        list(&["tool", "app", "lib", "tool"])
    );
    assert_eq!(workspace.dependant_packages("lib"), list(&["tool", "app"]));
    assert_eq!(workspace.dependant_packages("app"), list(&[]));
}

#[test]
fn packages_are_resolved_by_name() {
    let workspace = workspace();
    assert_eq!(
        workspace
            .resolve_packages_by_names(&list(&["tool", "app", "tool"]))
            .unwrap(),
        list(&["tool", "app", "tool"])
    );
    let error = workspace
        .resolve_packages_by_names(&list(&["tool", "nothing", "none"]))
        .unwrap_err();
    assert_eq!(error.description(), "package not found");
    assert_eq!(
        error.explanation(),
        Some("A cargo package with the given name (nothing) could not be found.")
    );
}

#[test]
fn changed_packages_bring_their_dependants() {
    let workspace = workspace();
    assert!(is_changed(
        &workspace.members[1],
        &list(&["/elsewhere", "/ws/core/Cargo.toml"])
    ));
    assert!(!is_changed(&workspace.members[1], &list(&["/elsewhere"])));
    assert!(!is_changed(&workspace.members[1], &list(&["Cargo.toml"])));
    assert!(!is_changed(&workspace.members[1], &list(&["/ws/core"])));
    assert!(!is_changed(&workspace.members[1], &list(&["/ws/core/"])));
    assert!(!is_changed(&workspace.members[1], &list(&["/ws/corex/Cargo.toml"])));
    assert!(!is_changed(&workspace.members[1], &list(&["/ws/lib/src/lib.rs"])));
    assert_eq!(
        workspace.resolve_changed_packages(&list(&["/ws/lib/src/lib.rs"])),
        list(&["lib", "tool", "app"])
    );
    assert_eq!(
        workspace.resolve_changed_packages(&list(&[
            "/ws/tool/src/main.rs",
            "/ws/app/src/main.rs"
        ])),
        list(&["app", "tool", "app"])
    );
    assert_eq!(
        workspace.resolve_changed_packages(&list(&["/ws/unknown"])),
        list(&[])
    );
    assert_eq!(workspace.resolve_changed_packages(&list(&[])), list(&[]));
}

#[test]
fn step_lines_align_the_action() {
    assert_eq!(step_line("Running", "`docker push`"), "     Running `docker push`");
    assert_eq!(step_line("Unsupported!", "x"), "Unsupported! x");
    assert_eq!(step_line("", ""), "             ");
}

#[test]
fn store_check_failure_keeps_its_reason() {
    let error = store_check_failed(Error::new("access denied"), "pkg/v1.zip", "bucket");
    assert_eq!(
        error.description(),
        "failed to check for AWS Lambda archive existence"
    );
    assert_eq!(error.source().unwrap().description(), "access denied");
    assert_eq!(
        error.explanation(),
        Some("Could not verify the existence of the AWS Lambda archive `pkg/v1.zip` in the S3 bucket `bucket`. Please check your credentials and permissions and make sure you have the appropriate permissions.")
    );
}

#[test]
fn tagging_decisions() {
    assert_eq!(tagging(None, "h", false), Tagging::Record);
    assert_eq!(tagging(None, "h", true), Tagging::Record);
    assert_eq!(tagging(Some("h"), "h", false), Tagging::UpToDate);
    assert_eq!(tagging(Some("h"), "h", true), Tagging::UpToDate);
    assert_eq!(tagging(Some("old"), "h", true), Tagging::Replace);
    assert_eq!(tagging(Some("old"), "h", false), Tagging::Conflict);
    assert!(tag_matches(Some("h"), "h"));
    assert!(!tag_matches(Some("old"), "h"));
    assert!(!tag_matches(None, "h"));
    let error = conflict("1.0.0", "old");
    assert_eq!(error.description(), "tag already exists for version");
    assert_eq!(
        error.explanation(),
        Some("A tag for version `1.0.0` already exists with a different hash `old`. You may need to increment the package version number and try again.")
    );
}
