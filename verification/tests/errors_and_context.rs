use cargo_monorepo::aws_lambda::{self, AwsLambdaMetadata, Upload};
use cargo_monorepo::context::{ContextBuilder, Mode, Options};
use cargo_monorepo::docker::{self, AwsEcrInformation, DockerMetadata};
use cargo_monorepo::errors::{Error, ErrorContext};
use cargo_monorepo::metadata::CopyCommand;
use cargo_monorepo::paths::{join_path, relative_to, strip_root};
use cargo_monorepo::planner::ecr::TokenCredentials;

#[test]
fn test_aws_ecr_information_valid() {
    let s = "550877636976.dkr.ecr.ca-central-1.amazonaws.com/my/repo-si_tory";
    let info = AwsEcrInformation::from_string(s);

    assert!(info.is_some());
    assert_eq!(info.as_ref().unwrap().account_id, "550877636976");
    assert_eq!(info.as_ref().unwrap().region, "ca-central-1");
    assert_eq!(info.as_ref().unwrap().repository_name, "my/repo-si_tory");
    assert_eq!(info.as_ref().unwrap().to_string(), s);
}

#[test]
fn test_aws_ecr_information_wrong_prefix() {
    let info =
        AwsEcrInformation::from_string("foo.550877636976.dkr.ecr.ca-central-1.amazonaws.com/");

    assert!(info.is_none());
}

#[test]
fn test_aws_ecr_information_wrong_suffix() {
    let info = AwsEcrInformation::from_string(
        "550877636976.dkr.ecr.ca-central-1.amazonaws.com/foo#bar",
    );

    assert!(info.is_none());
}

#[test]
fn aws_ecr_information_from_groups() {
    let groups = |list: &[&str]| Some(list.iter().map(|g| g.to_string()).collect::<Vec<_>>());
    let info = AwsEcrInformation::from_groups(groups(&["whole", "1", "eu", "repo"])).unwrap();
    assert_eq!(info.account_id, "1");
    assert_eq!(info.region, "eu");
    assert_eq!(info.repository_name, "repo");
    assert!(AwsEcrInformation::from_groups(groups(&["whole", "1", "eu"])).is_none());
    assert!(AwsEcrInformation::from_groups(None).is_none());
}

#[test]
fn error_builders_set_their_field() {
    let error = Error::new("it failed");
    assert_eq!(error.description(), "it failed");
    assert!(error.explanation().is_none());
    assert!(error.source().is_none());
    assert!(error.output().is_none());

    let error = error
        .with_explanation("because")
        .with_output("stderr")
        .with_source(Error::new("cause"));
    assert_eq!(error.description(), "it failed");
    assert_eq!(error.explanation(), Some("because"));
    assert_eq!(error.output(), Some("stderr"));
    assert_eq!(error.source().unwrap().description(), "cause");
    assert_eq!(error.to_string(), "it failed: cause\n\nbecause");

    let error = Error::from_source(Error::new("cause"));
    assert_eq!(error.description(), "");
    assert_eq!(error.source().unwrap().description(), "cause");
    assert_eq!(error.to_string(), ": cause");
    assert_eq!(Error::new("alone").to_string(), "alone");
}

#[test]
fn error_context_names_or_wraps() {
    let named = Error::from_source(Error::new("cause")).with_context("context");
    assert_eq!(named.description(), "context");
    assert_eq!(named.source().unwrap().description(), "cause");

    let wrapped = Error::new("inner")
        .with_explanation("inner explanation")
        .with_context("outer");
    assert_eq!(wrapped.description(), "outer");
    assert!(wrapped.explanation().is_none());
    let inner = wrapped.source().unwrap();
    assert_eq!(inner.description(), "inner");
    assert_eq!(inner.explanation(), Some("inner explanation"));
    assert_eq!(wrapped.to_string(), "outer: inner\n\ninner explanation");
}

#[test]
fn result_context_leaves_ok_alone() {
    let ok: Result<u32, Error> = Ok(7);
    assert_eq!(ok.with_context("context").unwrap(), 7);
    let ok: Result<u32, Error> = Ok(7);
    assert_eq!(ok.with_full_context("context", "explanation").unwrap(), 7);

    let failed: Result<u32, Error> = Err(Error::new("inner"));
    let error = failed.with_context("outer").unwrap_err();
    assert_eq!(error.description(), "outer");
    assert_eq!(error.source().unwrap().description(), "inner");

    let failed: Result<u32, Error> = Err(Error::from_source(Error::new("cause")));
    let error = failed
        .with_full_context("described", "explained")
        .unwrap_err();
    assert_eq!(error.description(), "described");
    assert_eq!(error.explanation(), Some("explained"));
    assert_eq!(error.source().unwrap().description(), "cause");
}

#[test]
fn mode_follows_the_release_flag() {
    assert!(Mode::from_release_flag(true).is_release());
    assert!(!Mode::from_release_flag(true).is_debug());
    assert!(Mode::from_release_flag(false).is_debug());
    assert!(!Mode::from_release_flag(false).is_release());
    assert_eq!(Mode::default(), Mode::Debug);
    assert_eq!(Mode::Debug.to_string(), "debug");
    assert_eq!(Mode::Release.to_string(), "release");
}

#[test]
fn options_default_to_a_plain_debug_run() {
    let options = Options::default();
    assert!(!options.dry_run);
    assert!(!options.force);
    assert!(!options.verbose);
    assert!(options.mode.is_debug());
}

#[test]
fn context_builder_keeps_what_it_is_given() {
    let builder = ContextBuilder::default();
    assert_eq!(builder.manifest_path("/work"), "/work/Cargo.toml");
    assert_eq!(builder.manifest_path("/work/"), "/work/Cargo.toml");
    assert!(builder.options().mode.is_debug());

    let builder = builder
        .with_manifest_path("/elsewhere/Cargo.toml")
        .with_options(Options {
            dry_run: true,
            force: false,
            verbose: true,
            mode: Mode::Release,
        });
    assert_eq!(builder.manifest_path("/work"), "/elsewhere/Cargo.toml");
    assert!(builder.options().dry_run);
    assert!(builder.options().verbose);
    assert!(!builder.options().force);
    assert!(builder.options().mode.is_release());
}

#[test]
fn paths_are_joined_and_made_relative() {
    assert_eq!(join_path("a", "b"), "a/b");
    assert_eq!(join_path("a/", "b"), "a/b");
    assert_eq!(join_path("a", "/b"), "/b");
    assert_eq!(join_path("", "b"), "b");
    assert_eq!(join_path("a", ""), "a/");
    assert_eq!(strip_root("/usr/local/bin"), "usr/local/bin");
    assert_eq!(strip_root("//usr"), "usr");
    assert_eq!(strip_root("usr/"), "usr/");
    assert_eq!(strip_root("/"), "");
    assert_eq!(strip_root(""), "");
    assert_eq!(relative_to("/a/b/c", "/a"), Some("b/c".to_string()));
    assert_eq!(relative_to("/a/b/c", "/a/"), Some("b/c".to_string()));
    assert_eq!(relative_to("/a/", "/a"), Some("".to_string()));
    assert_eq!(relative_to("/a", "/a"), None);
    assert_eq!(relative_to("/ab/c", "/a"), None);
    assert_eq!(relative_to("b/c", ""), None);
    assert_eq!(relative_to("/b/c", ""), Some("b/c".to_string()));
}

#[test]
fn copy_command_paths() {
    let command = CopyCommand {
        source: "assets/*.json".to_string(),
        destination: "/etc/service".to_string(),
    };
    assert_eq!(command.destination("target/docker"), "target/docker/etc/service");
    assert_eq!(command.source_pattern("/work/pkg"), "/work/pkg/assets/*.json");
    assert_eq!(command.to_string(), "copy 'assets/*.json' -> '/etc/service'");

    let absolute = CopyCommand {
        source: "/abs/file".to_string(),
        destination: "relative".to_string(),
    };
    assert_eq!(absolute.source_pattern("/work/pkg"), "/abs/file");
    assert_eq!(absolute.destination("root/"), "root/relative");
}

#[test]
fn aws_lambda_metadata_rules() {
    let mut metadata = AwsLambdaMetadata::new();
    assert_eq!(metadata.target_runtime, "x86_64-unknown-linux-musl");
    assert_eq!(aws_lambda::default_target_runtime(), "x86_64-unknown-linux-musl");
    assert_eq!(metadata.s3_key("pkg", "1.2.3"), "pkg/v1.2.3.zip");
    metadata.s3_bucket_prefix = "lambdas/".to_string();
    assert_eq!(metadata.s3_key("pkg", "1.2.3"), "lambdas/pkg/v1.2.3.zip");

    let error = metadata.s3_bucket(None).unwrap_err();
    assert_eq!(error.description(), "failed to determine AWS S3 bucket");
    assert_eq!(
        error.explanation(),
        Some("The field s3_bucket is empty and the environment variable CARGO_MONOREPO_AWS_LAMBDA_S3_BUCKET was not set")
    );
    assert_eq!(metadata.s3_bucket(Some("from-env")).unwrap(), "from-env");
    metadata.s3_bucket = Some("declared".to_string());
    assert_eq!(metadata.s3_bucket(Some("from-env")).unwrap(), "declared");
    assert_eq!(metadata.s3_bucket(None).unwrap(), "declared");

    assert_eq!(
        metadata.target_dir("target", &Mode::Release),
        "target/x86_64-unknown-linux-musl/release"
    );
    assert_eq!(
        metadata.lambda_root("target", &Mode::Debug, "pkg"),
        "target/x86_64-unknown-linux-musl/debug/aws-lambda/pkg"
    );
    assert_eq!(
        metadata.archive_path("target", &Mode::Debug),
        "target/x86_64-unknown-linux-musl/debug/aws-lambda.zip"
    );
    assert_eq!(aws_lambda::display_name("pkg"), "aws-lambda[pkg]");
}

#[test]
fn aws_lambda_upload_decisions() {
    let options = |dry_run: bool, force: bool, mode: Mode| Options {
        dry_run,
        force,
        verbose: false,
        mode,
    };
    assert!(!aws_lambda::is_published(&options(false, false, Mode::Debug)));
    assert!(aws_lambda::is_published(&options(false, true, Mode::Debug)));
    assert!(aws_lambda::is_published(&options(false, false, Mode::Release)));
    assert!(aws_lambda::checks_store(&options(false, false, Mode::Release)));
    assert!(!aws_lambda::checks_store(&options(false, true, Mode::Release)));

    let release = Mode::Release;
    assert_eq!(
        aws_lambda::upload_decision(&options(false, false, release), true),
        Upload::UpToDate
    );
    assert_eq!(
        aws_lambda::upload_decision(&options(false, true, release), true),
        Upload::Send
    );
    assert_eq!(
        aws_lambda::upload_decision(&options(false, false, release), false),
        Upload::Send
    );
    assert_eq!(
        aws_lambda::upload_decision(&options(true, false, release), false),
        Upload::DryRun
    );
    assert_eq!(
        aws_lambda::upload_decision(&options(true, false, release), true),
        Upload::UpToDate
    );
    assert_eq!(
        aws_lambda::upload_decision(&options(true, true, release), true),
        Upload::DryRun
    );
}

#[test]
fn docker_metadata_rules() {
    let mut metadata = DockerMetadata::new("FROM scratch");
    assert_eq!(metadata.target_runtime, "x86_64-unknown-linux-gnu");
    assert_eq!(metadata.target_bin_dir, "/usr/local/bin");
    assert_eq!(docker::default_target_runtime(), "x86_64-unknown-linux-gnu");
    assert_eq!(docker::default_target_bin_dir(), "/usr/local/bin");
    assert_eq!(metadata.template, "FROM scratch");

    let error = metadata.registry(None).unwrap_err();
    assert_eq!(error.description(), "failed to determine Docker registry");
    assert_eq!(
        error.explanation(),
        Some("The field registry is empty and the environment variable CARGO_BUILD_DIST_DOCKER_REGISTRY was not set")
    );
    assert_eq!(metadata.registry(Some("env.example")).unwrap(), "env.example");
    metadata.registry = Some("declared.example".to_string());
    assert_eq!(metadata.registry(Some("env.example")).unwrap(), "declared.example");

    assert_eq!(
        metadata.docker_root("target", &Mode::Release, "pkg"),
        "target/release/docker/pkg"
    );
    assert_eq!(
        metadata.docker_target_bin_dir("target/release/docker/pkg"),
        "target/release/docker/pkg/usr/local/bin"
    );
    assert_eq!(
        docker::docker_image_name("registry.example", "pkg", "1.0.0"),
        "registry.example/pkg:1.0.0"
    );
    assert_eq!(
        docker::repository_reference("registry.example", "pkg"),
        "registry.example/pkg"
    );
    assert_eq!(docker::display_name("pkg", "1.0.0"), "docker[pkg 1.0.0]");
}

#[test]
fn docker_push_decisions() {
    let options = |dry_run: bool, force: bool| Options {
        dry_run,
        force,
        verbose: false,
        mode: Mode::Release,
    };
    let mut metadata = DockerMetadata::new("");
    let push = metadata.push_decision(&options(false, false), true, true);
    assert!(!push.push && !push.ensure_repository);
    let push = metadata.push_decision(&options(false, false), false, true);
    assert!(push.push && !push.ensure_repository);
    metadata.allow_aws_ecr_creation = true;
    let push = metadata.push_decision(&options(false, false), false, true);
    assert!(push.push && push.ensure_repository);
    let push = metadata.push_decision(&options(false, false), false, false);
    assert!(push.push && !push.ensure_repository);
    let push = metadata.push_decision(&options(false, true), true, true);
    assert!(push.push && push.ensure_repository);
    let push = metadata.push_decision(&options(true, true), true, true);
    assert!(!push.push && !push.ensure_repository);
    assert!(docker::checks_registry(&options(false, false)));
    assert!(!docker::checks_registry(&options(false, true)));
}

#[test]
fn token_credentials_are_decoded() {
    let credentials = TokenCredentials::new("QVdTOnNlY3JldA==", "registry.example").unwrap();
    assert_eq!(credentials.username, "AWS");
    assert_eq!(credentials.password, "secret");
    assert_eq!(credentials.endpoint, "registry.example");

    let credentials = TokenCredentials::new("dTpwOnJlc3Q=", "e").unwrap();
    assert_eq!(credentials.username, "u");
    assert_eq!(credentials.password, "p");

    let credentials = TokenCredentials::new("dTo=", "e").unwrap();
    assert_eq!(credentials.username, "u");
    assert_eq!(credentials.password, "");
}

#[test]
fn token_credentials_need_a_colon_in_valid_text() {
    assert_eq!(
        TokenCredentials::new("bm9jb2xvbg==", "e").unwrap_err(),
        "Cannot find credentials"
    );
    assert_eq!(
        TokenCredentials::new("not base64!", "e").unwrap_err(),
        "Cannot find credentials"
    );
    assert_eq!(
        TokenCredentials::new("/w==", "e").unwrap_err(),
        "Cannot find credentials"
    );
    assert_eq!(
        TokenCredentials::from_decoded(None, "e").unwrap_err(),
        "Cannot find credentials"
    );
    let credentials = TokenCredentials::from_decoded(Some("a:b".to_string()), "e").unwrap();
    assert_eq!(credentials.username, "a");
    assert_eq!(credentials.password, "b");
}

#[test]
fn files_are_placed_under_their_names() {
    assert_eq!(
        docker::place_in("/usr/local/bin", "target/release/tool"),
        "/usr/local/bin/tool"
    );
    assert_eq!(docker::place_in("bin/", "tool"), "bin/tool");
    assert_eq!(docker::place_in("bin", "dir/"), "bin/");
    assert_eq!(
        docker::place_all_in(
            "/bin",
            &vec!["a/one".to_string(), "two".to_string()]
        ),
        vec!["/bin/one".to_string(), "/bin/two".to_string()]
    );
}
