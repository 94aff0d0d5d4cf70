//! The plan of a build: the actions to take, each as the steps it is made
//! of, decided before anything is written.

use vstd::prelude::*;
use vstd::string::StringExecFns;
use crate::planner::copy::CopyFiles;
use crate::planner::docker::{DockerImage, DockerPackage, Dockerfile};
use crate::text::{contains_text, text_views};

pub mod copy;
pub mod docker;
pub mod ecr;

verus! {

/// One operation on the file system or on another program.
#[derive(Debug, Clone)]
pub enum Step {
    /// Create a directory, and its parents, unless it exists.
    CreateDirectory { path: String },
    /// Write a file with this content.
    WriteFile { path: String, content: String },
    /// Copy a file.
    CopyFile { source: String, destination: String },
    /// Run a program with these arguments, in this directory if one is given.
    Run { program: String, args: Vec<String>, current_dir: Option<String> },
}

/// The content of a [`Step`].
pub enum StepView {
    CreateDirectory { path: Seq<char> },
    WriteFile { path: Seq<char>, content: Seq<char> },
    CopyFile { source: Seq<char>, destination: Seq<char> },
    Run { program: Seq<char>, args: Seq<Seq<char>>, current_dir: Option<Seq<char>> },
}

impl View for Step {
    type V = StepView;

    open spec fn view(&self) -> StepView {
        match self {
            Step::CreateDirectory { path } => StepView::CreateDirectory { path: path@ },
            Step::WriteFile { path, content } => StepView::WriteFile {
                path: path@,
                content: content@,
            },
            Step::CopyFile { source, destination } => StepView::CopyFile {
                source: source@,
                destination: destination@,
            },
            Step::Run { program, args, current_dir } => StepView::Run {
                program: program@,
                args: args@.map_values(|arg: String| arg@),
                current_dir: match current_dir {
                    Some(dir) => Some(dir@),
                    None => None,
                },
            },
        }
    }
}

/// The contents of some steps, in order.
pub open spec fn step_views(steps: Seq<Step>) -> Seq<StepView> {
    steps.map_values(|step: Step| step@)
}

/// Something that a build does.
pub trait Action {
    /// The steps that the action is made of, in order.
    spec fn plan(&self) -> Seq<StepView>;

    /// The steps that the action is made of, in order.
    fn steps(&self) -> (steps: Vec<Step>)
        ensures
            step_views(steps@) == self.plan(),
    ;
}

/// A build of the workspace by `cargo`.
#[derive(Debug)]
pub struct CargoBuildCommand {
    manifest_path: String,
}

impl View for CargoBuildCommand {
    type V = Seq<char>;

    closed spec fn view(&self) -> Seq<char> {
        self.manifest_path@
    }
}

/// The message for a manifest file that does not exist.
pub open spec fn missing_manifest_message(manifest_path: Seq<char>) -> Seq<char> {
    "failed to find the cargo-manifest file "@ + manifest_path
}

impl CargoBuildCommand {
    /// The build of the workspace of this manifest file, where `existing`
    /// holds the paths that exist. Fails unless the manifest file exists.
    pub fn new(manifest_path: &str, existing: &Vec<String>) -> (r: Result<CargoBuildCommand, String>)
        ensures
            match r {
                Ok(command) => command@ == manifest_path@ && text_views(existing@).contains(
                    manifest_path@,
                ),
                Err(message) => message@ == missing_manifest_message(manifest_path@) && !text_views(
                    existing@,
                ).contains(manifest_path@),
            },
    {
        if !contains_text(existing, manifest_path) {
            let mut message = "failed to find the cargo-manifest file ".to_owned();
            message.append(manifest_path);
            return Err(message);
        }
        Ok(CargoBuildCommand { manifest_path: manifest_path.to_owned() })
    }
}

impl Action for CargoBuildCommand {
    open spec fn plan(&self) -> Seq<StepView> {
        seq![
            StepView::Run {
                program: "cargo"@,
                args: seq!["build"@, "--manifest-path"@, self@],
                current_dir: None,
            },
        ]
    }

    fn steps(&self) -> (steps: Vec<Step>) {
        let mut args: Vec<String> = Vec::new();
        args.push("build".to_owned());
        args.push("--manifest-path".to_owned());
        args.push(self.manifest_path.clone());
        let mut steps: Vec<Step> = Vec::new();
        steps.push(Step::Run { program: "cargo".to_owned(), args, current_dir: None });
        assert(steps@[0]@->Run_args =~= seq!["build"@, "--manifest-path"@, self@]);
        assert(step_views(steps@) =~= self.plan());
        steps
    }
}

/// The arguments with which `cargo` builds the binaries of a package and
/// reports them: for the release profile where `release` is set, and for
/// the target `target` where one is given.
pub open spec fn package_build_args(
    manifest_path: Seq<char>,
    package_name: Seq<char>,
    release: bool,
    target: Option<Seq<char>>,
) -> Seq<Seq<char>> {
    seq![
        "build"@,
        "--manifest-path"@,
        manifest_path,
        "--package"@,
        package_name,
        "--message-format=json-render-diagnostics"@,
    ] + (if release {
        seq!["--release"@]
    } else {
        Seq::empty()
    }) + (match target {
        Some(target) => seq!["--target"@, target],
        None => Seq::empty(),
    })
}

/// The arguments with which `cargo` builds the binaries of a package and
/// reports them.
pub fn build_args(
    manifest_path: &str,
    package_name: &str,
    release: bool,
    target: Option<&str>,
) -> (args: Vec<String>)
    ensures
        text_views(args@) == package_build_args(
            manifest_path@,
            package_name@,
            release,
            match target {
                Some(target) => Some(target@),
                None => None,
            },
        ),
{
    let mut args: Vec<String> = Vec::new();
    args.push("build".to_owned());
    args.push("--manifest-path".to_owned());
    args.push(manifest_path.to_owned());
    args.push("--package".to_owned());
    args.push(package_name.to_owned());
    args.push("--message-format=json-render-diagnostics".to_owned());
    if release {
        args.push("--release".to_owned());
    }
    match target {
        Some(target) => {
            args.push("--target".to_owned());
            args.push(target.to_owned());
        },
        None => {},
    }
    assert(text_views(args@) =~= package_build_args(
        manifest_path@,
        package_name@,
        release,
        match target {
            Some(target) => Some(target@),
            None => None,
        },
    ));
    args
}

/// An action of a plan.
#[derive(Debug)]
pub enum PlannedAction {
    CargoBuild(CargoBuildCommand),
    Dockerfile(Dockerfile),
    CopyFiles(CopyFiles),
    DockerImage(DockerImage),
}

impl Action for PlannedAction {
    open spec fn plan(&self) -> Seq<StepView> {
        match self {
            PlannedAction::CargoBuild(action) => action.plan(),
            PlannedAction::Dockerfile(action) => action.plan(),
            PlannedAction::CopyFiles(action) => action.plan(),
            PlannedAction::DockerImage(action) => action.plan(),
        }
    }

    fn steps(&self) -> (steps: Vec<Step>) {
        match self {
            PlannedAction::CargoBuild(action) => action.steps(),
            PlannedAction::Dockerfile(action) => action.steps(),
            PlannedAction::CopyFiles(action) => action.steps(),
            PlannedAction::DockerImage(action) => action.steps(),
        }
    }
}

/// What a build is planned for.
#[derive(Debug)]
pub struct BuildContext {
    pub manifest_path: Option<String>,
    pub docker_packages: Vec<DockerPackage>,
}

/// Whether `actions` is what is planned for the first `count` packages:
/// after the build of the workspace, where a manifest file is given, the
/// Dockerfile of each package and then the files to copy for it.
pub open spec fn is_plan(context: BuildContext, count: int, actions: Seq<PlannedAction>) -> bool {
    let offset: int = if context.manifest_path is Some {
        1
    } else {
        0
    };
    &&& actions.len() == offset + 2 * count
    &&& match context.manifest_path {
        Some(path) => actions[0] is CargoBuild && actions[0]->CargoBuild_0@ == path@,
        None => true,
    }
    &&& forall|i: int|
        #![trigger context.docker_packages@[i]]
        0 <= i < count ==> {
            let package = context.docker_packages@[i];
            &&& actions[offset + 2 * i] is Dockerfile
            &&& actions[offset + 2 * i]->Dockerfile_0@ == (docker::DockerfileView {
                content: docker::dockerfile_content(package),
                directory: package.target_dir.docker_dir@,
                path: crate::paths::joined(
                    package.target_dir.docker_dir@,
                    docker::DOCKER_FILE_NAME@,
                ),
            })
            &&& actions[offset + 2 * i + 1] is CopyFiles
            &&& actions[offset + 2 * i + 1]->CopyFiles_0@ == copy::copies(package)
        }
}

/// Whether the manifest file of `context`, where one is given, and the
/// sources of the copies of its first `count` packages are all among
/// `existing`.
pub open spec fn all_exist(context: BuildContext, count: int, existing: Seq<Seq<char>>) -> bool {
    &&& context.manifest_path is Some ==> existing.contains(context.manifest_path->0@)
    &&& forall|i: int|
        0 <= i < count ==> copy::copies_exist(#[trigger] context.docker_packages@[i], existing)
}

/// Whether `message` tells what is missing first: the manifest file, or
/// else, in the first package with a missing source, the first such source.
pub open spec fn is_first_failure(
    context: BuildContext,
    existing: Seq<Seq<char>>,
    message: Seq<char>,
) -> bool {
    ||| context.manifest_path is Some && !existing.contains(context.manifest_path->0@)
        && message == missing_manifest_message(context.manifest_path->0@)
    ||| exists|i: int, j: int|
        0 <= i < context.docker_packages@.len() && all_exist(context, i, existing)
            && #[trigger] copy::is_first_missing(context.docker_packages@[i], existing, j)
            && message == copy::missing_message(context.docker_packages@[i], j)
}

/// The plan of a build: the build of the workspace, where a manifest file
/// is given, then for each package its Dockerfile and the files to copy for
/// it. `existing` holds the paths that exist.
///
/// Succeeds where the manifest file and the source of every copy exist, and
/// fails otherwise, with the message for what is missing first.
pub fn plan_build(context: &BuildContext, existing: &Vec<String>) -> (r: Result<
    Vec<PlannedAction>,
    String,
>)
    requires
        forall|i: int|
            0 <= i < context.docker_packages@.len() ==> (
            #[trigger] context.docker_packages@[i]).binaries@.len() > 0,
    ensures
        match r {
            Ok(actions) => is_plan(*context, context.docker_packages@.len() as int, actions@)
                && all_exist(
                *context,
                context.docker_packages@.len() as int,
                text_views(existing@),
            ),
            Err(message) => is_first_failure(*context, text_views(existing@), message@),
        },
{
    let mut actions: Vec<PlannedAction> = Vec::new();
    if let Some(manifest_path) = &context.manifest_path {
        match CargoBuildCommand::new(manifest_path.as_str(), existing) {
            Ok(command) => {
                actions.push(PlannedAction::CargoBuild(command));
            },
            Err(message) => {
                return Err(message);
            },
        }
    }
    let ghost offset: int = if context.manifest_path is Some {
        1
    } else {
        0
    };
    let mut i: usize = 0;
    while i < context.docker_packages.len()
        invariant
            i <= context.docker_packages@.len(),
            offset == if context.manifest_path is Some {
                1int
            } else {
                0int
            },
            forall|k: int|
                0 <= k < context.docker_packages@.len() ==> (
                #[trigger] context.docker_packages@[k]).binaries@.len() > 0,
            is_plan(*context, i as int, actions@),
            all_exist(*context, i as int, text_views(existing@)),
        decreases context.docker_packages@.len() - i,
    {
        let docker_package = &context.docker_packages[i];
        let ghost before = actions@;
        let dockerfile = match Dockerfile::new(docker_package) {
            Ok(dockerfile) => dockerfile,
            Err(message) => {
                return Err(message);
            },
        };
        let copy_files = match CopyFiles::new(docker_package, existing) {
            Ok(copy_files) => copy_files,
            Err(message) => {
                proof {
                    let j = choose|j: int|
                        copy::is_first_missing(*docker_package, text_views(existing@), j)
                            && message@ == copy::missing_message(*docker_package, j);
                    assert(copy::is_first_missing(
                        context.docker_packages@[i as int],
                        text_views(existing@),
                        j,
                    ));
                }
                return Err(message);
            },
        };
        actions.push(PlannedAction::Dockerfile(dockerfile));
        actions.push(PlannedAction::CopyFiles(copy_files));
        proof {
            assert forall|k: int|
                #![trigger context.docker_packages@[k]]
                0 <= k < i + 1 implies {
                let package = context.docker_packages@[k];
                &&& actions@[offset + 2 * k] is Dockerfile
                &&& actions@[offset + 2 * k]->Dockerfile_0@ == (docker::DockerfileView {
                    content: docker::dockerfile_content(package),
                    directory: package.target_dir.docker_dir@,
                    path: crate::paths::joined(
                        package.target_dir.docker_dir@,
                        docker::DOCKER_FILE_NAME@,
                    ),
                })
                &&& actions@[offset + 2 * k + 1] is CopyFiles
                &&& actions@[offset + 2 * k + 1]->CopyFiles_0@ == copy::copies(package)
            } by {
                if k < i {
                    assert(actions@[offset + 2 * k] == before[offset + 2 * k]);
                    assert(actions@[offset + 2 * k + 1] == before[offset + 2 * k + 1]);
                }
            }
            if context.manifest_path is Some {
                assert(actions@[0] == before[0]);
            }
        }
        i = i + 1;
    }
    Ok(actions)
}

} // verus!
