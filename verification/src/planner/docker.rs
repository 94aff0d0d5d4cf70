//! The text of the instructions of a Dockerfile, and the actions that write
//! a Dockerfile and build an image from it.

use vstd::prelude::*;
use vstd::string::StringExecFns;
use crate::decimal::{format_i32, signed_decimal};
use crate::metadata::{file_name_of, last_segment, CopyCommand};
use crate::paths::{join_path, joined};
use crate::planner::{step_views, Action, Step, StepView};
use crate::text::{chars_of, concat, concat_spec, join, join_spec, text_of, text_views};

verus! {

pub const DOCKER_FILE_NAME: &'static str = "Dockerfile";

pub const DOCKER_COMMAND: &'static str = "docker";

pub const DOCKER_COMMAND_PUSH: &'static str = "push";

pub const DOCKER_COMMAND_BUILD: &'static str = "build";

pub const DOCKER_COMMAND_TAG: &'static str = "tag";

pub const DOCKER_COMMAND_LOGIN: &'static str = "login";

pub const DOCKER_COMMAND_IMAGE: &'static str = "image";

/// A variable of the environment of a container.
#[derive(Debug, Clone)]
pub struct EnvironmentVariable {
    pub name: String,
    pub value: String,
}

/// Where the binaries are built, and where the image is put together.
#[derive(Debug, Clone)]
pub struct TargetDir {
    pub binary_dir: String,
    pub docker_dir: String,
}

/// What a package declares of its image.
#[derive(Debug, Clone)]
pub struct DockerSettings {
    pub base: String,
    pub env: Option<Vec<EnvironmentVariable>>,
    pub copy_dest_dir: String,
    pub run: Option<Vec<String>>,
    pub expose: Option<Vec<i32>>,
    pub workdir: Option<String>,
    pub extra_copies: Option<Vec<CopyCommand>>,
    pub extra_commands: Option<Vec<String>>,
}

/// A package of which an image is made.
#[derive(Debug, Clone)]
pub struct DockerPackage {
    pub name: String,
    pub version: String,
    pub binaries: Vec<String>,
    pub docker_settings: DockerSettings,
    pub target_dir: TargetDir,
}

/// The assignments `name=value` of the variables that have both a name and
/// a value, in order.
pub open spec fn assignments(variables: Seq<EnvironmentVariable>) -> Seq<Seq<char>>
    decreases variables.len(),
{
    if variables.len() == 0 {
        Seq::empty()
    } else {
        let rest = assignments(variables.drop_last());
        let last = variables.last();
        if last.name@.len() > 0 && last.value@.len() > 0 {
            rest.push(last.name@ + seq!['='] + last.value@)
        } else {
            rest
        }
    }
}

/// The ports in decimal, in order.
pub open spec fn port_texts(ports: Seq<i32>) -> Seq<Seq<char>> {
    ports.map_values(|port: i32| signed_decimal(port as int))
}

/// The `ENV` instruction for some variables.
pub open spec fn env_instruction(variables: Option<Vec<EnvironmentVariable>>) -> Seq<char> {
    match variables {
        Some(variables) => "ENV "@ + join_spec(assignments(variables@), " \\\n"@),
        None => Seq::empty(),
    }
}

/// One `RUN` instruction for each command.
pub open spec fn run_instructions(commands: Option<Vec<String>>) -> Seq<char> {
    match commands {
        Some(commands) => concat_spec(
            commands@.map_values(|command: String| "RUN "@ + command@ + " \n"@),
        ),
        None => Seq::empty(),
    }
}

/// One `COPY` instruction for each source, all to one directory.
pub open spec fn copy_instructions(sources: Seq<String>, destination_dir: Seq<char>) -> Seq<char> {
    concat_spec(
        sources.map_values(
            |source: String| "COPY "@ + source@ + seq![' '] + destination_dir + " \n\n"@,
        ),
    )
}

/// One `COPY` instruction for each copy command, of the file name of its
/// source to its destination.
pub open spec fn extra_copy_instructions(commands: Option<Vec<CopyCommand>>) -> Seq<char> {
    match commands {
        Some(commands) => concat_spec(
            commands@.map_values(
                |command: CopyCommand|
                    "COPY "@ + last_segment(command.source@) + seq![' '] + command.destination@
                        + " \n"@,
            ),
        ),
        None => Seq::empty(),
    }
}

/// The `WORKDIR` instruction for a directory.
pub open spec fn workdir_instruction(workdir: Option<String>) -> Seq<char> {
    match workdir {
        Some(workdir) => "WORKDIR "@ + workdir@,
        None => Seq::empty(),
    }
}

/// The `EXPOSE` instruction for some ports; nothing where there is no port.
pub open spec fn expose_instruction(ports: Option<Vec<i32>>) -> Seq<char> {
    match ports {
        Some(ports) if ports@.len() > 0 => "EXPOSE "@ + join_spec(port_texts(ports@), " "@),
        _ => Seq::empty(),
    }
}

/// The text without its carriage returns.
pub open spec fn escaped(input: Seq<char>) -> Seq<char>
    decreases input.len(),
{
    if input.len() == 0 {
        Seq::empty()
    } else if input.last() == '\r' {
        escaped(input.drop_last())
    } else {
        escaped(input.drop_last()).push(input.last())
    }
}

/// The assignments `name=value` of the variables that have both a name and
/// a value, in order.
pub fn assignments_of(variables: &Vec<EnvironmentVariable>) -> (list: Vec<String>)
    ensures
        text_views(list@) == assignments(variables@),
{
    let mut list: Vec<String> = Vec::new();
    let mut i: usize = 0;
    assert(text_views(list@) =~= assignments(variables@.take(0)));
    while i < variables.len()
        invariant
            i <= variables@.len(),
            text_views(list@) == assignments(variables@.take(i as int)),
        decreases variables@.len() - i,
    {
        let variable = &variables[i];
        let ghost shown = text_views(list@);
        proof {
            let more = variables@.take(i + 1);
            assert(more.drop_last() =~= variables@.take(i as int));
            assert(more.last() == variables@[i as int]);
        }
        if !variable.name.as_str().is_empty() && !variable.value.as_str().is_empty() {
            let mut assignment = variable.name.clone();
            assignment.append("=");
            assignment.append(variable.value.as_str());
            proof {
                reveal_strlit("=");
                assert("="@ =~= seq!['=']);
            }
            list.push(assignment);
            assert(text_views(list@) =~= shown.push(assignment@));
        }
        i = i + 1;
    }
    assert(variables@.take(variables@.len() as int) =~= variables@);
    list
}

/// The ports in decimal, in order.
pub fn port_texts_of(ports: &Vec<i32>) -> (list: Vec<String>)
    ensures
        text_views(list@) == port_texts(ports@),
{
    let mut list: Vec<String> = Vec::new();
    let mut i: usize = 0;
    while i < ports.len()
        invariant
            i <= ports@.len(),
            list@.len() == i,
            forall|j: int| 0 <= j < i ==> (#[trigger] list@[j])@ == signed_decimal(ports@[j] as int),
        decreases ports@.len() - i,
    {
        list.push(format_i32(ports[i]));
        i = i + 1;
    }
    assert(text_views(list@) =~= port_texts(ports@));
    list
}

pub fn build_env_variables_command_str(
    env_variables: &Option<Vec<EnvironmentVariable>>,
) -> (cmd_str: String)
    ensures
        cmd_str@ == env_instruction(*env_variables),
{
    let mut cmd_str = String::new();
    if let Some(variables) = env_variables {
        cmd_str.append("ENV ");
        let list = assignments_of(variables);
        let joined = join(&list, " \\\n");
        cmd_str.append(joined.as_str());
    }
    cmd_str
}

pub fn build_run_command_str(run_cmd: &Option<Vec<String>>) -> (cmd_str: String)
    ensures
        cmd_str@ == run_instructions(*run_cmd),
{
    match run_cmd {
        Some(runs) => {
            let mut lines: Vec<String> = Vec::new();
            let mut i: usize = 0;
            while i < runs.len()
                invariant
                    i <= runs@.len(),
                    lines@.len() == i,
                    forall|j: int|
                        0 <= j < i ==> (#[trigger] lines@[j])@ == "RUN "@ + runs@[j]@ + " \n"@,
                decreases runs@.len() - i,
            {
                let mut line = "RUN ".to_owned();
                line.append(runs[i].as_str());
                line.append(" \n");
                lines.push(line);
                i = i + 1;
            }
            assert(text_views(lines@) =~= runs@.map_values(
                |command: String| "RUN "@ + command@ + " \n"@,
            ));
            concat(&lines)
        },
        None => String::new(),
    }
}

pub fn build_copy_command_str(sources: &Vec<String>, destination_dir: &String) -> (cmd_str: String)
    ensures
        cmd_str@ == copy_instructions(sources@, destination_dir@),
{
    let mut lines: Vec<String> = Vec::new();
    let mut i: usize = 0;
    while i < sources.len()
        invariant
            i <= sources@.len(),
            lines@.len() == i,
            forall|j: int|
                0 <= j < i ==> (#[trigger] lines@[j])@ == "COPY "@ + sources@[j]@ + seq![' ']
                    + destination_dir@ + " \n\n"@,
        decreases sources@.len() - i,
    {
        let mut line = "COPY ".to_owned();
        line.append(sources[i].as_str());
        line.append(" ");
        line.append(destination_dir.as_str());
        line.append(" \n\n");
        proof {
            reveal_strlit(" ");
            assert(" "@ =~= seq![' ']);
        }
        lines.push(line);
        i = i + 1;
    }
    assert(text_views(lines@) =~= sources@.map_values(
        |source: String| "COPY "@ + source@ + seq![' '] + destination_dir@ + " \n\n"@,
    ));
    concat(&lines)
}

pub fn build_extra_copies_command_str(copies_command: &Option<Vec<CopyCommand>>) -> (cmd_str: String)
    ensures
        cmd_str@ == extra_copy_instructions(*copies_command),
{
    match copies_command {
        Some(commands) => {
            let mut lines: Vec<String> = Vec::new();
            let mut i: usize = 0;
            while i < commands.len()
                invariant
                    i <= commands@.len(),
                    lines@.len() == i,
                    forall|j: int|
                        0 <= j < i ==> (#[trigger] lines@[j])@ == "COPY "@ + last_segment(
                            commands@[j].source@,
                        ) + seq![' '] + commands@[j].destination@ + " \n"@,
                decreases commands@.len() - i,
            {
                let command = &commands[i];
                let filename = file_name_of(command.source.as_str());
                let mut line = "COPY ".to_owned();
                line.append(filename.as_str());
                line.append(" ");
                line.append(command.destination.as_str());
                line.append(" \n");
                proof {
                    reveal_strlit(" ");
                    assert(" "@ =~= seq![' ']);
                }
                lines.push(line);
                i = i + 1;
            }
            assert(text_views(lines@) =~= commands@.map_values(
                |command: CopyCommand|
                    "COPY "@ + last_segment(command.source@) + seq![' '] + command.destination@
                        + " \n"@,
            ));
            concat(&lines)
        },
        None => String::new(),
    }
}

pub fn build_workdir_command_str(workdir_cmd: &Option<String>) -> (cmd_str: String)
    ensures
        cmd_str@ == workdir_instruction(*workdir_cmd),
{
    let mut cmd_str = String::new();
    if let Some(workdir) = workdir_cmd {
        cmd_str.append("WORKDIR ");
        cmd_str.append(workdir.as_str());
    }
    cmd_str
}

pub fn build_expose_command_str(expose_ports: &Option<Vec<i32>>) -> (cmd_str: String)
    ensures
        cmd_str@ == expose_instruction(*expose_ports),
{
    let mut cmd_str = String::new();
    if let Some(ports) = expose_ports {
        if ports.len() > 0 {
            cmd_str.append("EXPOSE ");
            let list = port_texts_of(ports);
            let ports_str = join(&list, " ");
            cmd_str.append(ports_str.as_str());
        }
    }
    cmd_str
}

pub fn escape_docker(input: &str) -> (output: String)
    ensures
        output@ == escaped(input@),
{
    let chars = chars_of(input);
    let mut kept: Vec<char> = Vec::new();
    let mut i: usize = 0;
    assert(chars@.take(0) =~= Seq::<char>::empty());
    while i < chars.len()
        invariant
            i <= chars@.len(),
            kept@ == escaped(chars@.take(i as int)),
        decreases chars@.len() - i,
    {
        proof {
            let more = chars@.take(i + 1);
            assert(more.drop_last() =~= chars@.take(i as int));
            assert(more.last() == chars@[i as int]);
        }
        if chars[i] != '\r' {
            kept.push(chars[i]);
        }
        i = i + 1;
    }
    assert(chars@.take(chars@.len() as int) =~= chars@);
    text_of(&kept)
}

/// The lines of a Dockerfile that copy the binaries, all to one directory.
pub open spec fn binary_lines(binaries: Seq<String>, destination_dir: Seq<char>) -> Seq<char> {
    concat_spec(
        binaries.map_values(
            |binary: String| "COPY "@ + binary@ + seq![' '] + destination_dir + seq!['\n'],
        ),
    )
}

/// The lines of a Dockerfile that copy the extra files.
pub open spec fn extra_copy_lines(commands: Option<Vec<CopyCommand>>) -> Seq<char> {
    match commands {
        Some(commands) => concat_spec(
            commands@.map_values(
                |command: CopyCommand|
                    "COPY "@ + last_segment(command.source@) + seq![' '] + command.destination@
                        + seq!['\n'],
            ),
        ),
        None => Seq::empty(),
    }
}

/// The extra commands of a Dockerfile, one on each line.
pub open spec fn extra_command_lines(commands: Option<Vec<String>>) -> Seq<char> {
    match commands {
        Some(commands) => concat_spec(
            commands@.map_values(|command: String| command@ + seq!['\n']),
        ),
        None => Seq::empty(),
    }
}

/// The content of the Dockerfile of a package: the base image, the
/// environment, the copies of the binaries and of the extra files, the extra
/// commands, the ports, the working directory, and the first binary as the
/// command of the container.
pub open spec fn dockerfile_content(package: DockerPackage) -> Seq<char> {
    let settings = package.docker_settings;
    "FROM "@ + settings.base@ + seq!['\n'] + (match settings.env {
        Some(variables) => "ENV "@ + join_spec(assignments(variables@), " \\\n"@) + seq!['\n'],
        None => Seq::empty(),
    }) + binary_lines(package.binaries@, settings.copy_dest_dir@) + extra_copy_lines(
        settings.extra_copies,
    ) + extra_command_lines(settings.extra_commands) + (match settings.expose {
        Some(ports) => "EXPOSE "@ + join_spec(port_texts(ports@), " "@) + seq!['\n'],
        None => Seq::empty(),
    }) + (match settings.workdir {
        Some(workdir) => "WORKDIR "@ + workdir@ + seq!['\n'],
        None => Seq::empty(),
    }) + "CMD [\"./"@ + package.binaries@[0]@ + "\"]"@
}

/// A Dockerfile to write.
#[derive(Debug)]
pub struct Dockerfile {
    content: String,
    directory: String,
    path: String,
}

/// The content of a [`Dockerfile`] to write, and where it is written.
pub struct DockerfileView {
    pub content: Seq<char>,
    pub directory: Seq<char>,
    pub path: Seq<char>,
}

impl View for Dockerfile {
    type V = DockerfileView;

    closed spec fn view(&self) -> DockerfileView {
        DockerfileView { content: self.content@, directory: self.directory@, path: self.path@ }
    }
}

fn binary_lines_of(binaries: &Vec<String>, destination_dir: &str) -> (text: String)
    ensures
        text@ == binary_lines(binaries@, destination_dir@),
{
    let mut lines: Vec<String> = Vec::new();
    let mut i: usize = 0;
    while i < binaries.len()
        invariant
            i <= binaries@.len(),
            lines@.len() == i,
            forall|j: int|
                0 <= j < i ==> (#[trigger] lines@[j])@ == "COPY "@ + binaries@[j]@ + seq![' ']
                    + destination_dir@ + seq!['\n'],
        decreases binaries@.len() - i,
    {
        let mut line = "COPY ".to_owned();
        line.append(binaries[i].as_str());
        line.append(" ");
        line.append(destination_dir);
        line.append("\n");
        proof {
            reveal_strlit(" ");
            reveal_strlit("\n");
            assert(" "@ =~= seq![' ']);
            assert("\n"@ =~= seq!['\n']);
        }
        lines.push(line);
        i = i + 1;
    }
    assert(text_views(lines@) =~= binaries@.map_values(
        |binary: String| "COPY "@ + binary@ + seq![' '] + destination_dir@ + seq!['\n'],
    ));
    concat(&lines)
}

fn extra_copy_lines_of(commands: &Option<Vec<CopyCommand>>) -> (text: String)
    ensures
        text@ == extra_copy_lines(*commands),
{
    match commands {
        Some(commands) => {
            let mut lines: Vec<String> = Vec::new();
            let mut i: usize = 0;
            while i < commands.len()
                invariant
                    i <= commands@.len(),
                    lines@.len() == i,
                    forall|j: int|
                        0 <= j < i ==> (#[trigger] lines@[j])@ == "COPY "@ + last_segment(
                            commands@[j].source@,
                        ) + seq![' '] + commands@[j].destination@ + seq!['\n'],
                decreases commands@.len() - i,
            {
                let command = &commands[i];
                let file_name = file_name_of(command.source.as_str());
                let mut line = "COPY ".to_owned();
                line.append(file_name.as_str());
                line.append(" ");
                line.append(command.destination.as_str());
                line.append("\n");
                proof {
                    reveal_strlit(" ");
                    reveal_strlit("\n");
                    assert(" "@ =~= seq![' ']);
                    assert("\n"@ =~= seq!['\n']);
                }
                lines.push(line);
                i = i + 1;
            }
            assert(text_views(lines@) =~= commands@.map_values(
                |command: CopyCommand|
                    "COPY "@ + last_segment(command.source@) + seq![' '] + command.destination@
                        + seq!['\n'],
            ));
            concat(&lines)
        },
        None => String::new(),
    }
}

fn extra_command_lines_of(commands: &Option<Vec<String>>) -> (text: String)
    ensures
        text@ == extra_command_lines(*commands),
{
    match commands {
        Some(commands) => {
            let mut lines: Vec<String> = Vec::new();
            let mut i: usize = 0;
            while i < commands.len()
                invariant
                    i <= commands@.len(),
                    lines@.len() == i,
                    forall|j: int|
                        0 <= j < i ==> (#[trigger] lines@[j])@ == commands@[j]@ + seq!['\n'],
                decreases commands@.len() - i,
            {
                let mut line = commands[i].clone();
                line.append("\n");
                proof {
                    reveal_strlit("\n");
                    assert("\n"@ =~= seq!['\n']);
                }
                lines.push(line);
                i = i + 1;
            }
            assert(text_views(lines@) =~= commands@.map_values(
                |command: String| command@ + seq!['\n'],
            ));
            concat(&lines)
        },
        None => String::new(),
    }
}

impl Dockerfile {
    /// The Dockerfile of a package, to be written in its image directory.
    pub fn new(docker_package: &DockerPackage) -> (r: Result<Dockerfile, String>)
        requires
            docker_package.binaries@.len() > 0,
        ensures
            r is Ok,
            r->Ok_0@ == (DockerfileView {
                content: dockerfile_content(*docker_package),
                directory: docker_package.target_dir.docker_dir@,
                path: joined(docker_package.target_dir.docker_dir@, DOCKER_FILE_NAME@),
            }),
    {
        let setting = &docker_package.docker_settings;
        proof {
            reveal_strlit("\n");
            assert("\n"@ =~= seq!['\n']);
        }
        let mut content = "FROM ".to_owned();
        content.append(setting.base.as_str());
        content.append("\n");
        if let Some(variables) = &setting.env {
            let list = assignments_of(variables);
            let joined = join(&list, " \\\n");
            content.append("ENV ");
            content.append(joined.as_str());
            content.append("\n");
        }
        let binaries = binary_lines_of(&docker_package.binaries, setting.copy_dest_dir.as_str());
        content.append(binaries.as_str());
        let extra_copies = extra_copy_lines_of(&setting.extra_copies);
        content.append(extra_copies.as_str());
        let extra_commands = extra_command_lines_of(&setting.extra_commands);
        content.append(extra_commands.as_str());
        if let Some(ports) = &setting.expose {
            let list = port_texts_of(ports);
            let joined = join(&list, " ");
            content.append("EXPOSE ");
            content.append(joined.as_str());
            content.append("\n");
        }
        if let Some(workdir) = &setting.workdir {
            content.append("WORKDIR ");
            content.append(workdir.as_str());
            content.append("\n");
        }
        content.append("CMD [\"./");
        content.append(docker_package.binaries[0].as_str());
        content.append("\"]");
        assert(content@ =~= dockerfile_content(*docker_package));
        Ok(
            Dockerfile {
                content,
                directory: docker_package.target_dir.docker_dir.clone(),
                path: join_path(docker_package.target_dir.docker_dir.as_str(), DOCKER_FILE_NAME),
            },
        )
    }

    /// The content to write.
    pub fn content(&self) -> (content: &str)
        ensures
            content@ == self@.content,
    {
        self.content.as_str()
    }

    /// The path of the file to write.
    pub fn path(&self) -> (path: &str)
        ensures
            path@ == self@.path,
    {
        self.path.as_str()
    }
}

impl Action for Dockerfile {
    open spec fn plan(&self) -> Seq<StepView> {
        seq![
            StepView::CreateDirectory { path: self@.directory },
            StepView::WriteFile { path: self@.path, content: self@.content },
        ]
    }

    fn steps(&self) -> (steps: Vec<Step>) {
        let mut steps: Vec<Step> = Vec::new();
        steps.push(Step::CreateDirectory { path: self.directory.clone() });
        steps.push(Step::WriteFile { path: self.path.clone(), content: self.content.clone() });
        assert(step_views(steps@) =~= self.plan());
        steps
    }
}

/// An image to build.
#[derive(Debug)]
pub struct DockerImage {
    name: String,
    tag: String,
    dockerfile_path: String,
}

/// The name and tag of an image to build, and the directory of its
/// Dockerfile.
pub struct DockerImageView {
    pub name: Seq<char>,
    pub tag: Seq<char>,
    pub dockerfile_path: Seq<char>,
}

impl View for DockerImage {
    type V = DockerImageView;

    closed spec fn view(&self) -> DockerImageView {
        DockerImageView {
            name: self.name@,
            tag: self.tag@,
            dockerfile_path: self.dockerfile_path@,
        }
    }
}

/// The arguments with which `docker` builds an image.
pub open spec fn docker_build_args(image: DockerImageView) -> Seq<Seq<char>> {
    seq![DOCKER_COMMAND_BUILD@, "-t"@, image.name + seq![':'] + image.tag, "."@]
}

impl DockerImage {
    /// The image of a package: named as the package, tagged with its version.
    pub fn new(docker_package: &DockerPackage) -> (r: Result<DockerImage, String>)
        ensures
            r is Ok,
            r->Ok_0@ == (DockerImageView {
                name: docker_package.name@,
                tag: docker_package.version@,
                dockerfile_path: docker_package.target_dir.docker_dir@,
            }),
    {
        Ok(
            DockerImage {
                name: docker_package.name.clone(),
                tag: docker_package.version.clone(),
                dockerfile_path: docker_package.target_dir.docker_dir.clone(),
            },
        )
    }

    pub fn get_docker_build_args(&self) -> (args: Vec<String>)
        ensures
            text_views(args@) == docker_build_args(self@),
    {
        let mut reference = self.name.clone();
        reference.append(":");
        reference.append(self.tag.as_str());
        proof {
            reveal_strlit(":");
            assert(":"@ =~= seq![':']);
        }
        let mut args: Vec<String> = Vec::new();
        args.push(DOCKER_COMMAND_BUILD.to_owned());
        args.push("-t".to_owned());
        args.push(reference);
        args.push(".".to_owned());
        assert(text_views(args@) =~= docker_build_args(self@));
        args
    }
}

impl Action for DockerImage {
    open spec fn plan(&self) -> Seq<StepView> {
        seq![
            StepView::Run {
                program: DOCKER_COMMAND@,
                args: docker_build_args(self@),
                current_dir: Some(self@.dockerfile_path),
            },
        ]
    }

    fn steps(&self) -> (steps: Vec<Step>) {
        let mut steps: Vec<Step> = Vec::new();
        let args = self.get_docker_build_args();
        steps.push(
            Step::Run {
                program: DOCKER_COMMAND.to_owned(),
                args,
                current_dir: Some(self.dockerfile_path.clone()),
            },
        );
        assert(step_views(steps@) =~= self.plan());
        steps
    }
}

} // verus!
