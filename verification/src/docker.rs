//! Docker distribution targets: what a package declares, how its image is
//! named, where the image is put together, and when it is pushed.

use vstd::prelude::*;
use vstd::string::StringExecFns;
use crate::context::{Mode, Options};
use crate::errors::{plain, Error, ErrorView};
use crate::metadata::{file_name_of, last_segment, CopyCommand};
use crate::paths::{join_path, joined, strip_root, without_root};
use crate::text::text_views;

verus! {

pub const DEFAULT_DOCKER_REGISTRY_ENV_VAR_NAME: &'static str = "CARGO_BUILD_DIST_DOCKER_REGISTRY";

/// The pattern of the reference of a repository in AWS ECR: the account,
/// the region, and the name of the repository.
pub const AWS_ECR_PATTERN: &'static str =
    r"^(\d+)\.dkr\.ecr\.([a-z0-9-]+).amazonaws.com/([a-zA-Z0-9-_/]+)$";

/// What a package declares of a Docker distribution target.
#[derive(Debug, Clone)]
pub struct DockerMetadata {
    pub registry: Option<String>,
    pub target_runtime: String,
    /// The source of the template of the Dockerfile.
    pub template: String,
    pub extra_files: Vec<CopyCommand>,
    pub allow_aws_ecr_creation: bool,
    pub target_bin_dir: String,
}

/// The directory of the binaries in the image of a target that declares none.
pub fn default_target_bin_dir() -> (dir: String)
    ensures
        dir@ == "/usr/local/bin"@,
{
    "/usr/local/bin".to_owned()
}

/// The target runtime of a target that declares none.
pub fn default_target_runtime() -> (runtime: String)
    ensures
        runtime@ == "x86_64-unknown-linux-gnu"@,
{
    "x86_64-unknown-linux-gnu".to_owned()
}

/// The error for a target without a registry.
pub open spec fn no_registry_error() -> ErrorView {
    ErrorView {
        explanation: Some(
            "The field registry is empty and the environment variable "@
                + DEFAULT_DOCKER_REGISTRY_ENV_VAR_NAME@ + " was not set"@,
        ),
        ..plain("failed to determine Docker registry"@)
    }
}

/// The groups of the first match of a pattern in a text, the whole match
/// first: each as the text it matched, empty for a group that took no part.
/// None where nothing matches, or where the pattern is no pattern.
pub uninterp spec fn first_match(pattern: Seq<char>, text: Seq<char>) -> Option<Seq<Seq<char>>>;

/// `regex::Regex::new`, then `regex::Regex::captures_iter` and its first
/// item: the groups of the first match of `pattern` in `text`.
#[verifier::external_body]
pub(crate) fn match_groups(pattern: &str, text: &str) -> (groups: Option<Vec<String>>)
    ensures
        match groups {
            Some(groups) => first_match(pattern@, text@) == Some(
                groups@.map_values(|group: String| group@),
            ),
            None => first_match(pattern@, text@) is None,
        },
{
    match regex::Regex::new(pattern) {
        Ok(re) => re.captures_iter(text).next().map(
            |captures|
                captures.iter().map(
                    |group| group.map(|found| found.as_str().to_owned()).unwrap_or_default(),
                ).collect(),
        ),
        Err(_) => None,
    }
}

/// A repository in AWS ECR.
#[derive(Debug, Clone)]
pub struct AwsEcrInformation {
    pub account_id: String,
    pub region: String,
    pub repository_name: String,
}

/// The content of an [`AwsEcrInformation`].
pub struct AwsEcrView {
    pub account_id: Seq<char>,
    pub region: Seq<char>,
    pub repository_name: Seq<char>,
}

impl View for AwsEcrInformation {
    type V = AwsEcrView;

    open spec fn view(&self) -> AwsEcrView {
        AwsEcrView {
            account_id: self.account_id@,
            region: self.region@,
            repository_name: self.repository_name@,
        }
    }
}

/// The repository that the groups of a match name: the account, the region
/// and the name, after the whole match.
pub open spec fn repository_of(groups: Option<Seq<Seq<char>>>) -> Option<AwsEcrView> {
    match groups {
        Some(groups) if groups.len() >= 4 => Some(
            AwsEcrView { account_id: groups[1], region: groups[2], repository_name: groups[3] },
        ),
        _ => None,
    }
}

pub open spec fn optional_repository(found: Option<AwsEcrInformation>) -> Option<AwsEcrView> {
    match found {
        Some(information) => Some(information@),
        None => None,
    }
}

impl AwsEcrInformation {
    /// The repository that the groups of a match name.
    pub fn from_groups(groups: Option<Vec<String>>) -> (found: Option<AwsEcrInformation>)
        ensures
            optional_repository(found) == repository_of(
                match groups {
                    Some(groups) => Some(groups@.map_values(|group: String| group@)),
                    None => None,
                },
            ),
    {
        match groups {
            Some(groups) => {
                if groups.len() >= 4 {
                    Some(
                        AwsEcrInformation {
                            account_id: groups[1].clone(),
                            region: groups[2].clone(),
                            repository_name: groups[3].clone(),
                        },
                    )
                } else {
                    None
                }
            },
            None => None,
        }
    }

    /// The repository that a reference names, where it is a reference of a
    /// repository in AWS ECR.
    pub fn from_string(input: &str) -> (found: Option<AwsEcrInformation>)
        ensures
            optional_repository(found) == repository_of(first_match(AWS_ECR_PATTERN@, input@)),
    {
        Self::from_groups(match_groups(AWS_ECR_PATTERN, input))
    }

    /// The reference of the repository.
    pub fn to_string(&self) -> (text: String)
        ensures
            text@ == self.account_id@ + ".dkr.ecr."@ + self.region@ + ".amazonaws.com/"@
                + self.repository_name@,
    {
        let mut text = self.account_id.clone();
        text.append(".dkr.ecr.");
        text.append(self.region.as_str());
        text.append(".amazonaws.com/");
        text.append(self.repository_name.as_str());
        text
    }
}

/// What is done to push the image of a target.
#[derive(Debug, Clone, Copy)]
pub struct Push {
    /// Whether the repository is made sure to exist first.
    pub ensure_repository: bool,
    /// Whether the image is pushed.
    pub push: bool,
}

impl DockerMetadata {
    /// The metadata of a target that declares only its template.
    pub fn new(template: &str) -> (metadata: DockerMetadata)
        ensures
            metadata.registry is None,
            metadata.target_runtime@ == "x86_64-unknown-linux-gnu"@,
            metadata.template@ == template@,
            metadata.extra_files@.len() == 0,
            !metadata.allow_aws_ecr_creation,
            metadata.target_bin_dir@ == "/usr/local/bin"@,
    {
        DockerMetadata {
            registry: None,
            target_runtime: default_target_runtime(),
            template: template.to_owned(),
            extra_files: Vec::new(),
            allow_aws_ecr_creation: false,
            target_bin_dir: default_target_bin_dir(),
        }
    }

    /// The registry of the target: the one it declares, else the one that
    /// the environment names, given as `from_environment`.
    pub fn registry(&self, from_environment: Option<&str>) -> (r: Result<String, Error>)
        ensures
            match (self.registry, from_environment) {
                (Some(registry), _) => r is Ok && r->Ok_0@ == registry@,
                (None, Some(registry)) => r is Ok && r->Ok_0@ == registry@,
                (None, None) => r is Err && r->Err_0@ == no_registry_error(),
            },
    {
        match &self.registry {
            Some(registry) => Ok(registry.clone()),
            None => match from_environment {
                Some(registry) => Ok(registry.to_owned()),
                None => {
                    let mut explanation =
                        "The field registry is empty and the environment variable ".to_owned();
                    explanation.append(DEFAULT_DOCKER_REGISTRY_ENV_VAR_NAME);
                    explanation.append(" was not set");
                    Err(
                        Error::new("failed to determine Docker registry").with_explanation(
                            explanation.as_str(),
                        ),
                    )
                },
            },
        }
    }

    /// The directory in which the image of a package is put together: under
    /// the target root, by mode.
    pub fn docker_root(&self, target_root: &str, mode: &Mode, package_name: &str) -> (dir: String)
        ensures
            dir@ == joined(joined(joined(target_root@, mode.name()), "docker"@), package_name@),
    {
        let name = mode.to_string();
        let target_dir = join_path(target_root, name.as_str());
        let docker = join_path(target_dir.as_str(), "docker");
        join_path(docker.as_str(), package_name)
    }

    /// The directory of the binaries, under the directory of the image.
    pub fn docker_target_bin_dir(&self, docker_root: &str) -> (dir: String)
        ensures
            dir@ == joined(docker_root@, without_root(self.target_bin_dir@)),
    {
        let relative = strip_root(self.target_bin_dir.as_str());
        join_path(docker_root, relative.as_str())
    }

    /// What is done to push the image, where `exists` says whether the
    /// registry holds it already and `in_ecr` whether it is hosted on AWS
    /// ECR: nothing where it exists, unless forced; else the repository is
    /// made sure to exist, where that is allowed, and the image is pushed,
    /// both unless the run is a dry run.
    pub fn push_decision(&self, options: &Options, exists: bool, in_ecr: bool) -> (push: Push)
        ensures
            push.push == ((options.force || !exists) && !options.dry_run),
            push.ensure_repository == (push.push && in_ecr && self.allow_aws_ecr_creation),
    {
        if !options.force && exists {
            Push { ensure_repository: false, push: false }
        } else {
            Push {
                ensure_repository: in_ecr && self.allow_aws_ecr_creation && !options.dry_run,
                push: !options.dry_run,
            }
        }
    }
}

/// Where a file is put in a directory: under its file name.
pub open spec fn placed_in(dir: Seq<char>, path: Seq<char>) -> Seq<char> {
    joined(dir, last_segment(path))
}

/// Where a file is put in a directory: under its file name.
pub fn place_in(dir: &str, path: &str) -> (placed: String)
    ensures
        placed@ == placed_in(dir@, path@),
{
    let name = file_name_of(path);
    join_path(dir, name.as_str())
}

/// Where each of some files is put in a directory, in order.
pub fn place_all_in(dir: &str, paths: &Vec<String>) -> (placed: Vec<String>)
    ensures
        text_views(placed@) == text_views(paths@).map_values(|path: Seq<char>| placed_in(dir@, path)),
{
    let mut placed: Vec<String> = Vec::new();
    let mut i: usize = 0;
    while i < paths.len()
        invariant
            i <= paths@.len(),
            placed@.len() == i,
            forall|j: int| 0 <= j < i ==> (#[trigger] placed@[j])@ == placed_in(dir@, paths@[j]@),
        decreases paths@.len() - i,
    {
        placed.push(place_in(dir, paths[i].as_str()));
        i = i + 1;
    }
    assert(text_views(placed@) =~= text_views(paths@).map_values(
        |path: Seq<char>| placed_in(dir@, path),
    ));
    placed
}

/// The name of the image of a package: in its registry, by name, tagged with
/// its version.
pub fn docker_image_name(registry: &str, name: &str, version: &str) -> (image: String)
    ensures
        image@ == registry@ + "/"@ + name@ + ":"@ + version@,
{
    let mut image = registry.to_owned();
    image.append("/");
    image.append(name);
    image.append(":");
    image.append(version);
    image
}

/// The reference of the repository of a package in its registry.
pub fn repository_reference(registry: &str, name: &str) -> (reference: String)
    ensures
        reference@ == registry@ + "/"@ + name@,
{
    let mut reference = registry.to_owned();
    reference.append("/");
    reference.append(name);
    reference
}

/// The text shown for the target of a package.
pub fn display_name(name: &str, version: &str) -> (text: String)
    ensures
        text@ == "docker["@ + name@ + " "@ + version@ + "]"@,
{
    let mut text = "docker[".to_owned();
    text.append(name);
    text.append(" ");
    text.append(version);
    text.append("]");
    text
}

/// Whether the store is asked for the image before a push: unless forced.
pub fn checks_registry(options: &Options) -> (checks: bool)
    ensures
        checks == !options.force,
{
    !options.force
}

} // verus!
