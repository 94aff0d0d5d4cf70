use cargo_monorepo::metadata::CopyCommand;
use cargo_monorepo::planner::copy::CopyFiles;
use cargo_monorepo::planner::docker::{
    build_copy_command_str, build_env_variables_command_str, build_expose_command_str,
    build_extra_copies_command_str, build_run_command_str, build_workdir_command_str,
    escape_docker, DockerImage, DockerPackage, DockerSettings, Dockerfile, EnvironmentVariable,
    TargetDir,
};
use cargo_monorepo::planner::{plan_build, Action, BuildContext, CargoBuildCommand, PlannedAction, Step};

fn package() -> DockerPackage {
    DockerPackage {
        name: "service".to_string(),
        version: "1.2.3".to_string(),
        binaries: vec!["service".to_string(), "tool".to_string()],
        docker_settings: DockerSettings {
            base: "ubuntu:20.04".to_string(),
            env: Some(vec![
                EnvironmentVariable {
                    name: "A".to_string(),
                    value: "1".to_string(),
                },
                EnvironmentVariable {
                    name: "".to_string(),
                    value: "ignored".to_string(),
                },
                EnvironmentVariable {
                    name: "B".to_string(),
                    value: "2".to_string(),
                },
            ]),
            copy_dest_dir: "/usr/src/app/".to_string(),
            run: None,
            expose: Some(vec![8080, 80]),
            workdir: Some("/usr/src/app/".to_string()),
            extra_copies: Some(vec![CopyCommand {
                source: "assets/data.json".to_string(),
                destination: "/data/".to_string(),
            }]),
            extra_commands: Some(vec!["RUN ls".to_string()]),
        },
        target_dir: TargetDir {
            binary_dir: "target/debug".to_string(),
            docker_dir: "target/docker/service".to_string(),
        },
    }
}

#[test]
fn test_build_copy_command_str() {
    let sources: Vec<String> = vec!["f1.txt".to_string(), "other/f2.txt".to_string()];
    let container_destination_dir = "/usr/src/app/";

    let copy_str = build_copy_command_str(&sources, &container_destination_dir.to_string());
    let t1_str = "COPY f1.txt /usr/src/app/";
    let t2_str = "COPY other/f2.txt /usr/src/app/";

    assert_eq!(true, copy_str.contains(t1_str) && copy_str.contains(t2_str));
}

#[test]
fn test_build_extra_copies_command_str() {
    let cp1 = CopyCommand {
        source: "f1.txt".to_string(),
        destination: "some/folder/".to_string(),
    };
    let cp2 = CopyCommand {
        source: "other/f2.txt".to_string(),
        destination: "some/other/folder/".to_string(),
    };
    let copies: Vec<CopyCommand> = vec![cp1, cp2];

    let copy_str = build_extra_copies_command_str(&Some(copies));

    let t1_str = "COPY f1.txt some/folder/";
    let t2_str = "COPY f2.txt some/other/folder/";

    assert_eq!(true, copy_str.contains(t1_str) && copy_str.contains(t2_str));
}

#[test]
fn test_build_expose_command_str() {
    let ports: Vec<i32> = vec![8080, 80];
    let s = build_expose_command_str(&Some(ports));
    assert_eq!("EXPOSE 8080 80", s);
}

#[test]
fn test_build_workdir_command_str() {
    let workdir = String::from("/usr/src/app/");

    let s = build_workdir_command_str(&Some(workdir));
    assert_eq!("WORKDIR /usr/src/app/", s);
}

#[test]
fn copy_command_str_exact_text() {
    let sources: Vec<String> = vec!["f1.txt".to_string(), "other/f2.txt".to_string()];
    assert_eq!(
        build_copy_command_str(&sources, &"/app/".to_string()),
        "COPY f1.txt /app/ \n\nCOPY other/f2.txt /app/ \n\n"
    );
    assert_eq!(build_copy_command_str(&vec![], &"/app/".to_string()), "");
}

#[test]
fn extra_copies_command_str_exact_text() {
    let copies = vec![
        CopyCommand {
            source: "a/b/c.txt".to_string(),
            destination: "x/".to_string(),
        },
        CopyCommand {
            source: "dir/".to_string(),
            destination: "y/".to_string(),
        },
    ];
    assert_eq!(
        build_extra_copies_command_str(&Some(copies)),
        "COPY c.txt x/ \nCOPY  y/ \n"
    );
    assert_eq!(build_extra_copies_command_str(&None), "");
}

#[test]
fn expose_command_str_edge_cases() {
    assert_eq!(build_expose_command_str(&None), "");
    assert_eq!(build_expose_command_str(&Some(vec![])), "");
    assert_eq!(build_expose_command_str(&Some(vec![0])), "EXPOSE 0");
    assert_eq!(
        build_expose_command_str(&Some(vec![-1, i32::MIN, i32::MAX, 10])),
        "EXPOSE -1 -2147483648 2147483647 10"
    );
}

#[test]
fn workdir_command_str_without_workdir() {
    assert_eq!(build_workdir_command_str(&None), "");
}

#[test]
fn env_variables_command_str_skips_incomplete_variables() {
    let variables = vec![
        EnvironmentVariable {
            name: "A".to_string(),
            value: "1".to_string(),
        },
        EnvironmentVariable {
            name: "".to_string(),
            value: "x".to_string(),
        },
        EnvironmentVariable {
            name: "N".to_string(),
            value: "".to_string(),
        },
        EnvironmentVariable {
            name: "B".to_string(),
            value: "2".to_string(),
        },
    ];
    assert_eq!(
        build_env_variables_command_str(&Some(variables)),
        "ENV A=1 \\\nB=2"
    );
    assert_eq!(build_env_variables_command_str(&Some(vec![])), "ENV ");
    assert_eq!(build_env_variables_command_str(&None), "");
}

#[test]
fn run_command_str_has_one_line_per_command() {
    let runs = vec!["ls -al".to_string(), "echo helloworld".to_string()];
    assert_eq!(
        build_run_command_str(&Some(runs)),
        "RUN ls -al \nRUN echo helloworld \n"
    );
    assert_eq!(build_run_command_str(&None), "");
}

#[test]
fn escape_docker_removes_carriage_returns() {
    assert_eq!(escape_docker("a\r\nb\rc"), "a\nbc");
    assert_eq!(escape_docker(""), "");
    assert_eq!(escape_docker("\r\r"), "");
    assert_eq!(escape_docker("plain é text"), "plain é text");
}

#[test]
fn dockerfile_content_and_path() {
    let dockerfile = Dockerfile::new(&package()).unwrap();
    assert_eq!(
        dockerfile.content(),
        "FROM ubuntu:20.04\n\
         ENV A=1 \\\nB=2\n\
         COPY service /usr/src/app/\n\
         COPY tool /usr/src/app/\n\
         COPY data.json /data/\n\
         RUN ls\n\
         EXPOSE 8080 80\n\
         WORKDIR /usr/src/app/\n\
         CMD [\"./service\"]"
    );
    assert_eq!(dockerfile.path(), "target/docker/service/Dockerfile");
    let steps = dockerfile.steps();
    assert_eq!(steps.len(), 2);
    assert!(matches!(&steps[0], Step::CreateDirectory { path } if path == "target/docker/service"));
    assert!(matches!(
        &steps[1],
        Step::WriteFile { path, content }
            if path == "target/docker/service/Dockerfile" && content == dockerfile.content()
    ));
}

#[test]
fn dockerfile_of_minimal_package() {
    let mut minimal = package();
    minimal.binaries = vec!["only".to_string()];
    minimal.docker_settings.env = None;
    minimal.docker_settings.expose = None;
    minimal.docker_settings.workdir = None;
    minimal.docker_settings.extra_copies = None;
    minimal.docker_settings.extra_commands = None;
    let dockerfile = Dockerfile::new(&minimal).unwrap();
    assert_eq!(
        dockerfile.content(),
        "FROM ubuntu:20.04\nCOPY only /usr/src/app/\nCMD [\"./only\"]"
    );
}

#[test]
fn docker_image_build_args() {
    let image = DockerImage::new(&package()).unwrap();
    assert_eq!(
        image.get_docker_build_args(),
        vec![
            "build".to_string(),
            "-t".to_string(),
            "service:1.2.3".to_string(),
            ".".to_string()
        ]
    );
    let steps = image.steps();
    assert_eq!(steps.len(), 1);
    assert!(matches!(
        &steps[0],
        Step::Run { program, args, current_dir }
            if program == "docker"
                && args.len() == 4
                && current_dir.as_deref() == Some("target/docker/service")
    ));
}

#[test]
fn copy_files_lists_binaries_then_extra_files() {
    let existing = vec![
        "target/debug/service".to_string(),
        "target/debug/tool".to_string(),
        "assets/data.json".to_string(),
    ];
    let copy_files = CopyFiles::new(&package(), &existing).unwrap();
    let files = copy_files.files();
    assert_eq!(files.len(), 3);
    assert_eq!(files[0].source(), "target/debug/service");
    assert_eq!(files[0].destination(), "target/docker/service/service");
    assert_eq!(files[1].source(), "target/debug/tool");
    assert_eq!(files[1].destination(), "target/docker/service/tool");
    assert_eq!(files[2].source(), "assets/data.json");
    assert_eq!(files[2].destination(), "target/docker/service/data.json");
    assert_eq!(copy_files.steps().len(), 3);
}

#[test]
fn copy_files_fails_at_first_missing_source() {
    let existing = vec!["target/debug/service".to_string()];
    match CopyFiles::new(&package(), &existing) {
        Err(message) => assert_eq!(message, "File target/debug/tool does'nt exist"),
        Ok(_) => panic!("a missing binary must fail the plan"),
    }
    let existing = vec![
        "target/debug/service".to_string(),
        "target/debug/tool".to_string(),
    ];
    match CopyFiles::new(&package(), &existing) {
        Err(message) => assert_eq!(
            message,
            "Error, source path assets/data.json doesn't exists"
        ),
        Ok(_) => panic!("a missing extra file must fail the plan"),
    }
}

#[test]
fn cargo_build_command_needs_its_manifest() {
    let existing = vec!["Cargo.toml".to_string()];
    let command = CargoBuildCommand::new("Cargo.toml", &existing).unwrap();
    let steps = command.steps();
    assert_eq!(steps.len(), 1);
    assert!(matches!(
        &steps[0],
        Step::Run { program, args, current_dir }
            if program == "cargo"
                && args == &vec![
                    "build".to_string(),
                    "--manifest-path".to_string(),
                    "Cargo.toml".to_string()
                ]
                && current_dir.is_none()
    ));
    match CargoBuildCommand::new("missing/Cargo.toml", &existing) {
        Err(message) => assert_eq!(
            message,
            "failed to find the cargo-manifest file missing/Cargo.toml"
        ),
        Ok(_) => panic!("a missing manifest must fail"),
    }
}

#[test]
fn plan_build_orders_actions() {
    let context = BuildContext {
        manifest_path: Some("Cargo.toml".to_string()),
        docker_packages: vec![package()],
    };
    let existing = vec![
        "Cargo.toml".to_string(),
        "target/debug/service".to_string(),
        "target/debug/tool".to_string(),
        "assets/data.json".to_string(),
    ];
    let actions = plan_build(&context, &existing).unwrap();
    assert_eq!(actions.len(), 3);
    assert!(matches!(actions[0], PlannedAction::CargoBuild(_)));
    assert!(matches!(actions[1], PlannedAction::Dockerfile(_)));
    assert!(matches!(actions[2], PlannedAction::CopyFiles(_)));
    assert_eq!(actions[1].steps().len(), 2);

    let without_manifest = BuildContext {
        manifest_path: None,
        docker_packages: vec![],
    };
    assert_eq!(plan_build(&without_manifest, &vec![]).unwrap().len(), 0);
}

#[test]
fn plan_build_fails_when_a_path_is_missing() {
    let context = BuildContext {
        manifest_path: Some("Cargo.toml".to_string()),
        docker_packages: vec![package()],
    };
    match plan_build(&context, &vec![]) {
        Err(message) => assert_eq!(message, "failed to find the cargo-manifest file Cargo.toml"),
        Ok(_) => panic!("the manifest is missing"),
    }
    match plan_build(&context, &vec!["Cargo.toml".to_string()]) {
        Err(message) => assert_eq!(message, "File target/debug/service does'nt exist"),
        Ok(_) => panic!("the binaries are missing"),
    }
}

#[test]
fn build_args_follow_mode_and_target() {
    assert_eq!(
        cargo_monorepo::planner::build_args("Cargo.toml", "pkg", false, None),
        vec![
            "build",
            "--manifest-path",
            "Cargo.toml",
            "--package",
            "pkg",
            "--message-format=json-render-diagnostics"
        ]
    );
    assert_eq!(
        cargo_monorepo::planner::build_args("m", "p", true, Some("x86_64-unknown-linux-musl")),
        vec![
            "build",
            "--manifest-path",
            "m",
            "--package",
            "p",
            "--message-format=json-render-diagnostics",
            "--release",
            "--target",
            "x86_64-unknown-linux-musl"
        ]
    );
}
