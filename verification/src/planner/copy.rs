//! The files that are copied into the directory of an image.

use vstd::prelude::*;
use vstd::string::StringExecFns;
use crate::metadata::{file_name_of, last_segment, CopyCommand};
use crate::paths::{join_path, joined};
use crate::planner::docker::DockerPackage;
use crate::planner::{step_views, Action, Step, StepView};
use crate::text::{contains_text, text_views};

verus! {

/// A file to copy.
#[derive(Debug)]
pub struct CopyFile {
    source: String,
    destination: String,
}

/// From where and to where a file is copied.
pub struct CopyFileView {
    pub source: Seq<char>,
    pub destination: Seq<char>,
}

impl View for CopyFile {
    type V = CopyFileView;

    closed spec fn view(&self) -> CopyFileView {
        CopyFileView { source: self.source@, destination: self.destination@ }
    }
}

impl CopyFile {
    pub fn source(&self) -> (source: &str)
        ensures
            source@ == self@.source,
    {
        self.source.as_str()
    }

    pub fn destination(&self) -> (destination: &str)
        ensures
            destination@ == self@.destination,
    {
        self.destination.as_str()
    }
}

/// The files to copy for an image.
#[derive(Debug)]
pub struct CopyFiles {
    copy_files: Vec<CopyFile>,
}

impl View for CopyFiles {
    type V = Seq<CopyFileView>;

    closed spec fn view(&self) -> Seq<CopyFileView> {
        self.copy_files@.map_values(|file: CopyFile| file@)
    }
}

/// The copy of a binary: from the directory of the binaries to the directory
/// of the image, under the same name.
pub open spec fn binary_copy(package: DockerPackage, binary: Seq<char>) -> CopyFileView {
    CopyFileView {
        source: joined(package.target_dir.binary_dir@, binary),
        destination: joined(package.target_dir.docker_dir@, binary),
    }
}

/// The copy of an extra file: from its source to the directory of the
/// image, under its file name.
pub open spec fn extra_copy(package: DockerPackage, command: CopyCommand) -> CopyFileView {
    CopyFileView {
        source: command.source@,
        destination: if last_segment(command.source@).len() > 0 {
            joined(package.target_dir.docker_dir@, last_segment(command.source@))
        } else {
            package.target_dir.docker_dir@
        },
    }
}

/// The extra copy commands of a package; none where it declares none.
pub open spec fn extra_commands(package: DockerPackage) -> Seq<CopyCommand> {
    match package.docker_settings.extra_copies {
        Some(commands) => commands@,
        None => Seq::empty(),
    }
}

/// The copies of a package: its binaries, then its extra files.
pub open spec fn copies(package: DockerPackage) -> Seq<CopyFileView> {
    package.binaries@.map_values(|binary: String| binary_copy(package, binary@))
        + extra_commands(package).map_values(|command: CopyCommand| extra_copy(package, command))
}

/// The message for a copy whose source does not exist.
pub open spec fn missing_message(package: DockerPackage, i: int) -> Seq<char> {
    if i < package.binaries@.len() {
        "File "@ + copies(package)[i].source + " does'nt exist"@
    } else {
        "Error, source path "@ + copies(package)[i].source + " doesn't exists"@
    }
}

/// Whether the source of each copy of a package is among `existing`.
pub open spec fn copies_exist(package: DockerPackage, existing: Seq<Seq<char>>) -> bool {
    forall|j: int|
        0 <= j < copies(package).len() ==> existing.contains((#[trigger] copies(package)[j]).source)
}

/// Whether `i` is the place of the first copy whose source is not among
/// `existing`.
pub open spec fn is_first_missing(package: DockerPackage, existing: Seq<Seq<char>>, i: int) -> bool {
    &&& 0 <= i < copies(package).len()
    &&& !existing.contains(copies(package)[i].source)
    &&& forall|j: int| 0 <= j < i ==> existing.contains((#[trigger] copies(package)[j]).source)
}

impl CopyFiles {
    /// The files to copy for the image of a package, where `existing` holds
    /// the paths that exist. Fails at the first source that does not exist.
    pub fn new(docker_package: &DockerPackage, existing: &Vec<String>) -> (r: Result<
        CopyFiles,
        String,
    >)
        ensures
            match r {
                Ok(files) => files@ == copies(*docker_package) && copies_exist(
                    *docker_package,
                    text_views(existing@),
                ),
                Err(message) => exists|i: int|
                    is_first_missing(*docker_package, text_views(existing@), i) && message@
                        == missing_message(*docker_package, i),
            },
    {
        let ghost all = copies(*docker_package);
        let ghost known = text_views(existing@);
        let mut copy_files: Vec<CopyFile> = Vec::new();
        let binaries = &docker_package.binaries;
        let mut i: usize = 0;
        while i < binaries.len()
            invariant
                i <= binaries@.len(),
                binaries == &docker_package.binaries,
                all == copies(*docker_package),
                known == text_views(existing@),
                copy_files@.len() == i,
                forall|j: int| 0 <= j < i ==> (#[trigger] copy_files@[j])@ == all[j],
                forall|j: int| 0 <= j < i ==> known.contains((#[trigger] all[j]).source),
            decreases binaries@.len() - i,
        {
            let binary = &binaries[i];
            let source = join_path(docker_package.target_dir.binary_dir.as_str(), binary.as_str());
            assert(all[i as int] == binary_copy(*docker_package, binary@));
            if !contains_text(existing, source.as_str()) {
                let mut message = "File ".to_owned();
                message.append(source.as_str());
                message.append(" does'nt exist");
                assert(is_first_missing(*docker_package, known, i as int));
                assert(message@ =~= missing_message(*docker_package, i as int));
                return Err(message);
            }
            let destination = join_path(
                docker_package.target_dir.docker_dir.as_str(),
                binary.as_str(),
            );
            copy_files.push(CopyFile { source, destination });
            i = i + 1;
        }
        if let Some(extra_copies) = &docker_package.docker_settings.extra_copies {
            let ghost offset = binaries@.len() as int;
            let mut k: usize = 0;
            while k < extra_copies.len()
                invariant
                    k <= extra_copies@.len(),
                    offset == docker_package.binaries@.len(),
                    extra_copies@ == extra_commands(*docker_package),
                    all == copies(*docker_package),
                    known == text_views(existing@),
                    copy_files@.len() == offset + k,
                    forall|j: int| 0 <= j < offset + k ==> (#[trigger] copy_files@[j])@ == all[j],
                    forall|j: int| 0 <= j < offset + k ==> known.contains((#[trigger] all[j]).source),
                decreases extra_copies@.len() - k,
            {
                let copy_command = &extra_copies[k];
                assert(all[offset + k] == extra_copy(*docker_package, *copy_command));
                let source = copy_command.source.clone();
                if !contains_text(existing, source.as_str()) {
                    let mut message = "Error, source path ".to_owned();
                    message.append(source.as_str());
                    message.append(" doesn't exists");
                    assert(is_first_missing(*docker_package, known, offset + k));
                    assert(message@ =~= missing_message(*docker_package, offset + k));
                    return Err(message);
                }
                let file_name = file_name_of(source.as_str());
                let destination = if file_name.as_str().is_empty() {
                    docker_package.target_dir.docker_dir.clone()
                } else {
                    join_path(docker_package.target_dir.docker_dir.as_str(), file_name.as_str())
                };
                copy_files.push(CopyFile { source, destination });
                k = k + 1;
            }
        }
        let files = CopyFiles { copy_files };
        assert(files@ =~= all);
        Ok(files)
    }

    /// The files to copy, in order.
    pub fn files(&self) -> (files: &Vec<CopyFile>)
        ensures
            files@.map_values(|file: CopyFile| file@) == self@,
    {
        &self.copy_files
    }
}

impl Action for CopyFiles {
    open spec fn plan(&self) -> Seq<StepView> {
        self@.map_values(
            |file: CopyFileView|
                StepView::CopyFile { source: file.source, destination: file.destination },
        )
    }

    fn steps(&self) -> (steps: Vec<Step>) {
        let mut steps: Vec<Step> = Vec::new();
        let mut i: usize = 0;
        while i < self.copy_files.len()
            invariant
                i <= self.copy_files@.len(),
                steps@.len() == i,
                forall|j: int|
                    0 <= j < i ==> (#[trigger] steps@[j])@ == (StepView::CopyFile {
                        source: self.copy_files@[j].source@,
                        destination: self.copy_files@[j].destination@,
                    }),
            decreases self.copy_files@.len() - i,
        {
            let file = &self.copy_files[i];
            steps.push(
                Step::CopyFile { source: file.source.clone(), destination: file.destination.clone() },
            );
            i = i + 1;
        }
        assert(step_views(steps@) =~= self.plan());
        steps
    }
}

} // verus!
