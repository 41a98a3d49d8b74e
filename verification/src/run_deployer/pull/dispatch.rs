//! Finds out how a project is built, and where the build leaves its output.

pub mod project_trait;

use crate::run_deployer::command::{
    invocation_views, invoke_with_two, with_two, Invocation, InvocationView,
};
use crate::run_deployer::pull::check_existence;
use crate::run_deployer::pull::dispatch::project_trait::{module_name, Go, Project, Rust};
use crate::text::{slash_join, slash_joined, str_eq, string_views};
use vstd::prelude::*;
use vstd::string::*;

verus! {

/// The build systems that are recognised, each by the name of its manifest.
#[derive(Debug, Clone, Copy, PartialEq, Eq, Structural)]
pub enum KeyFile {
    /// `package.json`: deployed as it is, without a build step.
    NodeJS,
    /// `Cargo.toml`: built by Cargo.
    Rust,
    /// `go.mod`: built by the Go toolchain.
    Go,
}

impl KeyFile {
    /// The manifest's file name.
    pub open spec fn file_name(self) -> Seq<char> {
        match self {
            KeyFile::NodeJS => "package.json"@,
            KeyFile::Rust => "Cargo.toml"@,
            KeyFile::Go => "go.mod"@,
        }
    }

    /// The manifest's file name.
    pub fn value(&self) -> (name: &'static str)
        ensures
            name@ == self.file_name(),
    {
        match self {
            KeyFile::NodeJS => "package.json",
            KeyFile::Rust => "Cargo.toml",
            KeyFile::Go => "go.mod",
        }
    }
}

/// The build system whose manifest is called exactly `name`, if there is one.
pub open spec fn key_file_named(name: Seq<char>) -> Option<KeyFile> {
    if name == KeyFile::NodeJS.file_name() {
        Some(KeyFile::NodeJS)
    } else if name == KeyFile::Rust.file_name() {
        Some(KeyFile::Rust)
    } else if name == KeyFile::Go.file_name() {
        Some(KeyFile::Go)
    } else {
        None
    }
}

/// Recognises a manifest by its file name.
pub fn recognize(name: &str) -> (kind: Option<KeyFile>)
    ensures
        kind == key_file_named(name@),
{
    if str_eq(name, KeyFile::NodeJS.value()) {
        Some(KeyFile::NodeJS)
    } else if str_eq(name, KeyFile::Rust.value()) {
        Some(KeyFile::Rust)
    } else if str_eq(name, KeyFile::Go.value()) {
        Some(KeyFile::Go)
    } else {
        None
    }
}

/// One entry met while walking a directory tree.
#[derive(Debug, Clone, PartialEq, Eq)]
pub struct WalkEntry {
    /// The entry's full path.
    pub path: String,
    /// The directory the entry lies in.
    pub parent: String,
    /// The last component of the path.
    pub file_name: String,
    /// Whether the entry is a regular file, symbolic links followed.
    pub is_file: bool,
}

/// One step of a walk through a directory tree: an entry, or the reason
/// the walk could not go on at this point.
#[derive(Debug, Clone, PartialEq, Eq)]
pub enum Visit {
    Entry(WalkEntry),
    Failed(String),
}

/// Why no build could be dispatched.
#[derive(Debug, Clone, PartialEq, Eq)]
pub enum DispatchError {
    /// The walk failed before any manifest was met; the text is the walk's own.
    Traversal(String),
    /// The tree holds no manifest of a recognised build system.
    NoSupportedProject,
}

impl DispatchError {
    /// The text shown for this error.
    pub fn message(&self) -> (text: String)
        ensures
            text@ == match *self {
                DispatchError::Traversal(reason) => reason@,
                DispatchError::NoSupportedProject => "Couldn't find any supported key-file."@,
            },
    {
        match self {
            DispatchError::Traversal(reason) => reason.clone(),
            DispatchError::NoSupportedProject => "Couldn't find any supported key-file.".to_owned(),
        }
    }
}

/// The build system that the file behind `visit` is the manifest of.
pub open spec fn manifest_kind(visit: Visit) -> Option<KeyFile> {
    match visit {
        Visit::Entry(entry) => if entry.is_file {
            key_file_named(entry.file_name@)
        } else {
            None
        },
        Visit::Failed(_) => None,
    }
}

/// The walk goes past `visit`: it is an entry, and no manifest.
pub open spec fn passed_over(visit: Visit) -> bool {
    visit is Entry && manifest_kind(visit) is None
}

/// The walk goes past everything before position `i`, and `i` is a position in it.
pub open spec fn reached(visits: Seq<Visit>, i: int) -> bool {
    &&& 0 <= i < visits.len()
    &&& forall|j: int| 0 <= j < i ==> passed_over(#[trigger] visits[j])
}

/// The walk goes past every one of its steps.
pub open spec fn all_passed_over(visits: Seq<Visit>) -> bool {
    forall|j: int| 0 <= j < visits.len() ==> passed_over(#[trigger] visits[j])
}

/// `found` is what the search of `visits` comes to: the first manifest with
/// its build system, the failure met before any manifest, or the finding
/// that the walk holds neither.
pub open spec fn is_detection(
    visits: Seq<Visit>,
    found: Result<(&WalkEntry, KeyFile), DispatchError>,
) -> bool {
    match found {
        Ok((entry, kind)) => exists|i: int|
            #[trigger] reached(visits, i) && visits[i] == Visit::Entry(*entry) && manifest_kind(
                visits[i],
            ) == Some(kind),
        Err(DispatchError::Traversal(reason)) => exists|i: int|
            #[trigger] reached(visits, i) && visits[i] == Visit::Failed(reason),
        Err(DispatchError::NoSupportedProject) => all_passed_over(visits),
    }
}

/// A walk that holds exactly one manifest, and no failure, comes to that
/// manifest and its build system, whatever other entries it holds and
/// wherever among them the manifest stands.
pub proof fn lemma_single_manifest_is_found(
    visits: Seq<Visit>,
    at: int,
    found: Result<(&WalkEntry, KeyFile), DispatchError>,
)
    requires
        0 <= at < visits.len(),
        forall|j: int| 0 <= j < visits.len() ==> (#[trigger] visits[j]) is Entry,
        manifest_kind(visits[at]) is Some,
        forall|j: int| 0 <= j < visits.len() && j != at ==> manifest_kind(#[trigger] visits[j]) is None,
        is_detection(visits, found),
    ensures
        found matches Ok((entry, kind)) && visits[at] == Visit::Entry(*entry) && manifest_kind(
            visits[at],
        ) == Some(kind),
{
    assert(!passed_over(visits[at]));
    match found {
        Ok((entry, kind)) => {
            let i = choose|i: int|
                #[trigger] reached(visits, i) && visits[i] == Visit::Entry(*entry)
                    && manifest_kind(visits[i]) == Some(kind);
            assert(i == at);
        },
        Err(DispatchError::Traversal(reason)) => {
            let i = choose|i: int|
                #[trigger] reached(visits, i) && visits[i] == Visit::Failed(reason);
            assert(visits[i] is Entry);
        },
        Err(DispatchError::NoSupportedProject) => {},
    }
}

/// A walk without a manifest and without a failure comes to the finding
/// that there is no supported project.
pub proof fn lemma_no_manifest_is_no_project(
    visits: Seq<Visit>,
    found: Result<(&WalkEntry, KeyFile), DispatchError>,
)
    requires
        all_passed_over(visits),
        is_detection(visits, found),
    ensures
        found matches Err(DispatchError::NoSupportedProject),
{
    match found {
        Ok((entry, kind)) => {
            let i = choose|i: int|
                #[trigger] reached(visits, i) && visits[i] == Visit::Entry(*entry)
                    && manifest_kind(visits[i]) == Some(kind);
            assert(passed_over(visits[i]));
        },
        Err(DispatchError::Traversal(reason)) => {
            let i = choose|i: int|
                #[trigger] reached(visits, i) && visits[i] == Visit::Failed(reason);
            assert(passed_over(visits[i]));
        },
        Err(DispatchError::NoSupportedProject) => {},
    }
}

/// Whether the search ends at `visit`, so that the walk need not go on.
pub fn ends_search(visit: &Visit) -> (ends: bool)
    ensures
        ends == !passed_over(*visit),
{
    match visit {
        Visit::Entry(entry) => entry.is_file && recognize(entry.file_name.as_str()).is_some(),
        Visit::Failed(_) => true,
    }
}

/// Searches the entries of a walk, in the walk's order, for the first
/// manifest of a recognised build system.
///
/// The first manifest wins. A failure of the walk before it ends the search
/// with that failure; one after it is never looked at. A walk without a
/// manifest and without a failure holds no supported project.
pub fn list_directories<'a>(visits: &'a Vec<Visit>) -> (found: Result<
    (&'a WalkEntry, KeyFile),
    DispatchError,
>)
    ensures
        is_detection(visits@, found),
{
    let mut i: usize = 0;
    while i < visits.len()
        invariant
            i <= visits.len(),
            forall|j: int| 0 <= j < i ==> passed_over(#[trigger] visits@[j]),
        decreases visits.len() - i,
    {
        match &visits[i] {
            Visit::Entry(entry) => {
                if entry.is_file {
                    match recognize(entry.file_name.as_str()) {
                        Some(kind) => {
                            assert(reached(visits@, i as int));
                            return Ok((entry, kind));
                        },
                        None => {},
                    }
                }
            },
            Visit::Failed(reason) => {
                assert(reached(visits@, i as int));
                return Err(DispatchError::Traversal(reason.clone()));
            },
        }
        i += 1;
    }
    Err(DispatchError::NoSupportedProject)
}

/// The build command for a project of `kind` in the directory `parent`;
/// none where the sources are deployed as they are.
pub open spec fn build_command(kind: KeyFile, parent: Seq<char>) -> Option<InvocationView> {
    match kind {
        KeyFile::NodeJS => None,
        KeyFile::Rust => Some(with_two("cargo"@, "build"@, "--release"@, Some(parent))),
        KeyFile::Go => Some(with_two("go"@, "build"@, "."@, Some(parent))),
    }
}

/// Dispatches on the detected build system: the command that builds the
/// project whose manifest lies in `parent`.
pub fn build(kind: KeyFile, parent: &str) -> (cmd: Option<Invocation>)
    ensures
        match cmd {
            Some(c) => build_command(kind, parent@) == Some(c@),
            None => build_command(kind, parent@) is None,
        },
{
    match kind {
        KeyFile::NodeJS => None,
        KeyFile::Rust => Some(Rust::new().build(parent)),
        KeyFile::Go => Some(Go::new().build(parent)),
    }
}

/// What a build produced: where the deployable output lies, and by which
/// build system.
#[derive(Debug, Clone, PartialEq, Eq)]
pub struct BuildResult {
    pub artifact_path: String,
    pub kind: KeyFile,
}

/// Where the output of a build in `parent` lies.
///
/// Cargo leaves it under `target/release`. Sources that are deployed as
/// they are need no more than their directory. Go leaves a binary named
/// after the module that the lines `manifest` of its manifest declare. Where
/// they declare none, the output is nothing more specific than the
/// directory itself, provided the lines are `complete`; of a manifest that
/// could not be read to its end nothing is known, and the output has no name.
pub open spec fn artifact_path(
    kind: KeyFile,
    parent: Seq<char>,
    manifest: Seq<Seq<char>>,
    complete: bool,
) -> Option<Seq<char>> {
    match kind {
        KeyFile::NodeJS => Some(parent),
        KeyFile::Rust => Some(slash_joined(parent, "target/release"@)),
        KeyFile::Go => match module_name(manifest) {
            Some(module) => Some(slash_joined(parent, module)),
            None => if complete {
                Some(slash_joined(parent, ""@))
            } else {
                None
            },
        },
    }
}

/// Names the output of a build of `kind` in `parent`. Only Go reads
/// `manifest`, the lines of the manifest that could be read, and `complete`,
/// which says whether these are all its lines.
pub fn build_result(kind: KeyFile, parent: &str, manifest: &Vec<String>, complete: bool) -> (built:
    Option<BuildResult>)
    ensures
        match built {
            Some(result) => result.kind == kind && artifact_path(
                kind,
                parent@,
                string_views(manifest@),
                complete,
            ) == Some(result.artifact_path@),
            None => artifact_path(kind, parent@, string_views(manifest@), complete) is None,
        },
{
    let artifact = match kind {
        KeyFile::NodeJS => parent.to_owned(),
        KeyFile::Rust => {
            let rust = Rust::new();
            slash_join(parent, rust.get_build_dir())
        },
        KeyFile::Go => {
            let go = Go::new();
            let mut path = slash_join(parent, go.get_build_dir());
            match go.get_build_name(manifest) {
                Some(module) => {
                    path.append(module.as_str());
                },
                None => {
                    if !complete {
                        return None;
                    }
                },
            }
            proof {
                reveal_strlit("");
                assert(Some(path@) =~= artifact_path(
                    kind,
                    parent@,
                    string_views(manifest@),
                    complete,
                ));
            }
            path
        },
    };
    Some(BuildResult { artifact_path: artifact, kind })
}

/// The commands that put `project` in the place of `destination/service_name`.
///
/// Whatever is there is removed first, with everything in it, and only then
/// is the new output moved to that very path: nothing of the old version is
/// merged into the new one.
pub open spec fn relocation(
    exists: bool,
    project: Seq<char>,
    destination: Seq<char>,
    service_name: Seq<char>,
) -> Seq<InvocationView> {
    let target = slash_joined(destination, service_name);
    let put = with_two("mv"@, project, target, None);
    if exists {
        seq![with_two("rm"@, "-rf"@, target, None), put]
    } else {
        seq![put]
    }
}

/// Where something is deployed already, the plan has two commands: the
/// first removes what is at the destination, with everything in it, and
/// only the second moves the new output to that same path.
pub proof fn lemma_removal_comes_first(
    project: Seq<char>,
    destination: Seq<char>,
    service_name: Seq<char>,
)
    ensures
        relocation(true, project, destination, service_name) == seq![
            with_two("rm"@, "-rf"@, slash_joined(destination, service_name), None),
            with_two("mv"@, project, slash_joined(destination, service_name), None),
        ],
        relocation(false, project, destination, service_name) == seq![
            with_two("mv"@, project, slash_joined(destination, service_name), None),
        ],
{
}

/// Plans the replacement of `destination/service_name` by `project`, given
/// whether something `exists` there.
pub fn relocate(exists: bool, project: &str, destination: &str, service_name: &str) -> (plan: Vec<
    Invocation,
>)
    ensures
        invocation_views(plan@) == relocation(exists, project@, destination@, service_name@),
{
    let target = slash_join(destination, service_name);
    let mut plan: Vec<Invocation> = Vec::new();
    if exists {
        plan.push(invoke_with_two("rm", "-rf", target.as_str(), None));
    }
    plan.push(invoke_with_two("mv", project, target.as_str(), None));
    assert(invocation_views(plan@) =~= relocation(
        exists,
        project@,
        destination@,
        service_name@,
    ));
    plan
}

/// Plans the replacement of `destination/service_name` by `project`,
/// after asking the file system whether the destination is there.
pub fn move_build(project: &str, destination: &str, service_name: &str) -> (plan: Vec<Invocation>)
    ensures
        exists|found: bool|
            invocation_views(plan@) == #[trigger] relocation(
                found,
                project@,
                destination@,
                service_name@,
            ),
{
    let target = slash_join(destination, service_name);
    let found = check_existence(target.as_str());
    relocate(found, project, destination, service_name)
}

} // verus!
