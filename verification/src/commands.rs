//! What the commands of the tool ask for, decided from the values and the
//! flags on the command line: the triggers they are registered under, the
//! project that `new` creates, what `fetch` downloads, what `publish`
//! packages, and the exit code of each misuse.

use crate::arguments::{
    arg_views, token_names, triggers, Arg, Arguments, Command, OperationView,
};
use crate::text::concat;
use crate::upstream::PackageType;
use vstd::prelude::*;
use vstd::string::*;

verus! {

/// A misuse of the command line, or a step of `new` that failed.
#[derive(Debug, Clone, Copy, PartialEq, Eq, Structural)]
pub enum UsageError {
    /// `new` was given no project name.
    MissingProjectName,
    /// The directory of the new project could not be created.
    ProjectDirectory,
    /// The source directory of the new project could not be created.
    SourceDirectory,
    /// The header directory of the new project could not be created.
    HeaderDirectory,
    /// `fetch` was given no package name.
    MissingFetchName,
    /// `fetch` was given no package version.
    MissingFetchVersion,
}

/// The exit code of the process after each misuse. Code 0 is kept for the
/// display of the help text.
pub open spec fn exit_code_of(error: UsageError) -> i32 {
    match error {
        UsageError::MissingProjectName => 1,
        UsageError::ProjectDirectory => 3,
        UsageError::SourceDirectory => 4,
        UsageError::HeaderDirectory => 5,
        UsageError::MissingFetchName => 6,
        UsageError::MissingFetchVersion => 7,
    }
}

impl UsageError {
    /// The exit code of the process after this misuse.
    pub fn exit_code(&self) -> (code: i32)
        ensures
            code == exit_code_of(*self),
            code > 0,
    {
        match self {
            UsageError::MissingProjectName => 1,
            UsageError::ProjectDirectory => 3,
            UsageError::SourceDirectory => 4,
            UsageError::HeaderDirectory => 5,
            UsageError::MissingFetchName => 6,
            UsageError::MissingFetchVersion => 7,
        }
    }
}

/// A directory to create for a new project, and the error to report
/// where it cannot be created.
#[derive(Debug)]
pub struct DirectoryStep {
    pub path: String,
    pub failure: UsageError,
}

/// The project that `new` creates: its name and kind, the directories to
/// create, in order, and the manifest to write.
#[derive(Debug)]
pub struct NewProject {
    pub name: String,
    pub project_type: String,
    pub directories: Vec<DirectoryStep>,
    pub manifest: String,
}

/// The mathematical content of a [`DirectoryStep`].
pub struct DirectoryStepView {
    pub path: Seq<char>,
    pub failure: UsageError,
}

/// The mathematical content of a [`NewProject`].
pub struct NewProjectView {
    pub name: Seq<char>,
    pub project_type: Seq<char>,
    pub directories: Seq<DirectoryStepView>,
    pub manifest: Seq<char>,
}

impl View for DirectoryStep {
    type V = DirectoryStepView;

    open spec fn view(&self) -> DirectoryStepView {
        DirectoryStepView { path: self.path@, failure: self.failure }
    }
}

impl View for NewProject {
    type V = NewProjectView;

    open spec fn view(&self) -> NewProjectView {
        NewProjectView {
            name: self.name@,
            project_type: self.project_type@,
            directories: self.directories@.map_values(|d: DirectoryStep| d@),
            manifest: self.manifest@,
        }
    }
}

/// The triggers of the tool and the commands they start, in the order of
/// their registration.
pub open spec fn standard_operations() -> Seq<OperationView> {
    seq![
        OperationView { trigger: "--help"@, command: Command::Help },
        OperationView { trigger: "-h"@, command: Command::Help },
        OperationView { trigger: "build"@, command: Command::Build },
        OperationView { trigger: "run"@, command: Command::Run },
        OperationView { trigger: "new"@, command: Command::New },
        OperationView { trigger: "publish"@, command: Command::Publish },
        OperationView { trigger: "--get-flags"@, command: Command::GetFlags },
        OperationView { trigger: "fetch"@, command: Command::Fetch },
        OperationView { trigger: "test"@, command: Command::Test },
        OperationView { trigger: "clean"@, command: Command::Clean },
    ]
}

/// The project that `new` creates for the project name `name`: a library
/// where `library` holds, a program otherwise.
pub open spec fn new_project_of(name: Seq<char>, library: bool) -> NewProjectView {
    NewProjectView {
        name,
        project_type: if library {
            "lib"@
        } else {
            "bin"@
        },
        directories: seq![
            DirectoryStepView { path: name, failure: UsageError::ProjectDirectory },
            DirectoryStepView { path: name + "/src"@, failure: UsageError::SourceDirectory },
            DirectoryStepView { path: name + "/headers"@, failure: UsageError::HeaderDirectory },
        ],
        manifest: name + "/build.toml"@,
    }
}

/// Registers the commands of the tool under their triggers.
pub fn register_commands(args: &mut Arguments)
    requires
        old(args).wf(),
        old(args).registry() == Seq::<OperationView>::empty(),
    ensures
        final(args).wf(),
        final(args).tokens() == old(args).tokens(),
        final(args).groups() == old(args).groups(),
        final(args).registry() == standard_operations(),
{
    proof {
        lemma_triggers_differ();
    }
    args.invoke_callback("--help", Command::Help);
    proof {
        assert(triggers(args.registry()) =~= seq!["--help"@]);
    }
    args.invoke_callback("-h", Command::Help);
    proof {
        assert(triggers(args.registry()) =~= seq!["--help"@, "-h"@]);
    }
    args.invoke_callback("build", Command::Build);
    proof {
        assert(triggers(args.registry()) =~= seq!["--help"@, "-h"@, "build"@]);
    }
    args.invoke_callback("run", Command::Run);
    proof {
        assert(triggers(args.registry()) =~= seq!["--help"@, "-h"@, "build"@, "run"@]);
    }
    args.invoke_callback("new", Command::New);
    proof {
        assert(triggers(args.registry()) =~= seq!["--help"@, "-h"@, "build"@, "run"@, "new"@]);
    }
    args.invoke_callback("publish", Command::Publish);
    proof {
        assert(triggers(args.registry()) =~= seq!["--help"@, "-h"@, "build"@, "run"@, "new"@, "publish"@]);
    }
    args.invoke_callback("--get-flags", Command::GetFlags);
    proof {
        assert(triggers(args.registry()) =~= seq!["--help"@, "-h"@, "build"@, "run"@, "new"@, "publish"@, "--get-flags"@]);
    }
    args.invoke_callback("fetch", Command::Fetch);
    proof {
        assert(triggers(args.registry()) =~= seq!["--help"@, "-h"@, "build"@, "run"@, "new"@, "publish"@, "--get-flags"@, "fetch"@]);
    }
    args.invoke_callback("test", Command::Test);
    proof {
        assert(triggers(args.registry()) =~= seq!["--help"@, "-h"@, "build"@, "run"@, "new"@, "publish"@, "--get-flags"@, "fetch"@, "test"@]);
    }
    args.invoke_callback("clean", Command::Clean);
    proof {
        assert(args.registry() =~= standard_operations());
    }
}

/// The triggers of the tool differ from one another.
proof fn lemma_triggers_differ()
    ensures
        !seq!["--help"@].contains("-h"@),
        !seq!["--help"@, "-h"@].contains("build"@),
        !seq!["--help"@, "-h"@, "build"@].contains("run"@),
        !seq!["--help"@, "-h"@, "build"@, "run"@].contains("new"@),
        !seq!["--help"@, "-h"@, "build"@, "run"@, "new"@].contains("publish"@),
        !seq!["--help"@, "-h"@, "build"@, "run"@, "new"@, "publish"@].contains("--get-flags"@),
        !seq!["--help"@, "-h"@, "build"@, "run"@, "new"@, "publish"@, "--get-flags"@].contains("fetch"@),
        !seq!["--help"@, "-h"@, "build"@, "run"@, "new"@, "publish"@, "--get-flags"@, "fetch"@].contains("test"@),
        !seq!["--help"@, "-h"@, "build"@, "run"@, "new"@, "publish"@, "--get-flags"@, "fetch"@, "test"@].contains("clean"@),
{
    reveal_strlit("--help");
    reveal_strlit("-h");
    reveal_strlit("build");
    reveal_strlit("run");
    reveal_strlit("new");
    reveal_strlit("publish");
    reveal_strlit("--get-flags");
    reveal_strlit("fetch");
    reveal_strlit("test");
    reveal_strlit("clean");
    assert("--help"@.len() == 6 && "--help"@[0] == '-');
    assert("-h"@.len() == 2 && "-h"@[0] == '-');
    assert("build"@.len() == 5 && "build"@[0] == 'b');
    assert("run"@.len() == 3 && "run"@[0] == 'r');
    assert("new"@.len() == 3 && "new"@[0] == 'n');
    assert("publish"@.len() == 7 && "publish"@[0] == 'p');
    assert("--get-flags"@.len() == 11 && "--get-flags"@[0] == '-');
    assert("fetch"@.len() == 5 && "fetch"@[0] == 'f');
    assert("test"@.len() == 4 && "test"@[0] == 't');
    assert("clean"@.len() == 5 && "clean"@[0] == 'c');
    assert(!seq!["--help"@].contains("-h"@)) by {
        let s = seq!["--help"@];
        assert(s.len() == 1);
        assert(s[0] == "--help"@);
    }
    assert(!seq!["--help"@, "-h"@].contains("build"@)) by {
        let s = seq!["--help"@, "-h"@];
        assert(s.len() == 2);
        assert(s[0] == "--help"@);
        assert(s[1] == "-h"@);
    }
    assert(!seq!["--help"@, "-h"@, "build"@].contains("run"@)) by {
        let s = seq!["--help"@, "-h"@, "build"@];
        assert(s.len() == 3);
        assert(s[0] == "--help"@);
        assert(s[1] == "-h"@);
        assert(s[2] == "build"@);
    }
    assert(!seq!["--help"@, "-h"@, "build"@, "run"@].contains("new"@)) by {
        let s = seq!["--help"@, "-h"@, "build"@, "run"@];
        assert(s.len() == 4);
        assert(s[0] == "--help"@);
        assert(s[1] == "-h"@);
        assert(s[2] == "build"@);
        assert(s[3] == "run"@);
    }
    assert(!seq!["--help"@, "-h"@, "build"@, "run"@, "new"@].contains("publish"@)) by {
        let s = seq!["--help"@, "-h"@, "build"@, "run"@, "new"@];
        assert(s.len() == 5);
        assert(s[0] == "--help"@);
        assert(s[1] == "-h"@);
        assert(s[2] == "build"@);
        assert(s[3] == "run"@);
        assert(s[4] == "new"@);
    }
    assert(!seq!["--help"@, "-h"@, "build"@, "run"@, "new"@, "publish"@].contains("--get-flags"@)) by {
        let s = seq!["--help"@, "-h"@, "build"@, "run"@, "new"@, "publish"@];
        assert(s.len() == 6);
        assert(s[0] == "--help"@);
        assert(s[1] == "-h"@);
        assert(s[2] == "build"@);
        assert(s[3] == "run"@);
        assert(s[4] == "new"@);
        assert(s[5] == "publish"@);
    }
    assert(!seq!["--help"@, "-h"@, "build"@, "run"@, "new"@, "publish"@, "--get-flags"@].contains("fetch"@)) by {
        let s = seq!["--help"@, "-h"@, "build"@, "run"@, "new"@, "publish"@, "--get-flags"@];
        assert(s.len() == 7);
        assert(s[0] == "--help"@);
        assert(s[1] == "-h"@);
        assert(s[2] == "build"@);
        assert(s[3] == "run"@);
        assert(s[4] == "new"@);
        assert(s[5] == "publish"@);
        assert(s[6] == "--get-flags"@);
    }
    assert(!seq!["--help"@, "-h"@, "build"@, "run"@, "new"@, "publish"@, "--get-flags"@, "fetch"@].contains("test"@)) by {
        let s = seq!["--help"@, "-h"@, "build"@, "run"@, "new"@, "publish"@, "--get-flags"@, "fetch"@];
        assert(s.len() == 8);
        assert(s[0] == "--help"@);
        assert(s[1] == "-h"@);
        assert(s[2] == "build"@);
        assert(s[3] == "run"@);
        assert(s[4] == "new"@);
        assert(s[5] == "publish"@);
        assert(s[6] == "--get-flags"@);
        assert(s[7] == "fetch"@);
    }
    assert(!seq!["--help"@, "-h"@, "build"@, "run"@, "new"@, "publish"@, "--get-flags"@, "fetch"@, "test"@].contains("clean"@)) by {
        let s = seq!["--help"@, "-h"@, "build"@, "run"@, "new"@, "publish"@, "--get-flags"@, "fetch"@, "test"@];
        assert(s.len() == 9);
        assert(s[0] == "--help"@);
        assert(s[1] == "-h"@);
        assert(s[2] == "build"@);
        assert(s[3] == "run"@);
        assert(s[4] == "new"@);
        assert(s[5] == "publish"@);
        assert(s[6] == "--get-flags"@);
        assert(s[7] == "fetch"@);
        assert(s[8] == "test"@);
    }
}

/// The project that `new` creates. Its name is the first value of the
/// command; it is a library where `--lib` is among the tokens.
pub fn plan_new(values: &[Arg], args: &Arguments) -> (plan: Result<NewProject, UsageError>)
    ensures
        match plan {
            Ok(project) => values@.len() > 0 && project@ == new_project_of(
                arg_views(values@)[0].name,
                token_names(args.tokens()).contains("--lib"@),
            ),
            Err(error) => values@.len() == 0 && error == UsageError::MissingProjectName,
        },
{
    if values.len() == 0 {
        return Err(UsageError::MissingProjectName);
    }
    let project_type = if args.has_arg("--lib") {
        String::from_str("lib")
    } else {
        String::from_str("bin")
    };
    let name = values[0].get_name();
    let mut directories: Vec<DirectoryStep> = Vec::new();
    directories.push(DirectoryStep { path: name.clone(), failure: UsageError::ProjectDirectory });
    directories.push(
        DirectoryStep {
            path: concat(name.as_str(), "/src"),
            failure: UsageError::SourceDirectory,
        },
    );
    directories.push(
        DirectoryStep {
            path: concat(name.as_str(), "/headers"),
            failure: UsageError::HeaderDirectory,
        },
    );
    let manifest = concat(name.as_str(), "/build.toml");
    let plan = NewProject { name, project_type, directories, manifest };
    proof {
        assert(arg_views(values@)[0] == values@[0]@);
        assert(plan@.directories =~= new_project_of(
            arg_views(values@)[0].name,
            token_names(args.tokens()).contains("--lib"@),
        ).directories);
    }
    Ok(plan)
}

/// The package that `fetch` downloads: the name is the first value of the
/// command, the version the second.
pub fn plan_fetch(values: &[Arg]) -> (plan: Result<(String, String), UsageError>)
    ensures
        match plan {
            Ok(package) => values@.len() >= 2 && package.0@ == arg_views(values@)[0].name
                && package.1@ == arg_views(values@)[1].name,
            Err(error) => if values@.len() == 0 {
                error == UsageError::MissingFetchName
            } else {
                values@.len() == 1 && error == UsageError::MissingFetchVersion
            },
        },
{
    if values.len() == 0 {
        return Err(UsageError::MissingFetchName);
    }
    if values.len() == 1 {
        return Err(UsageError::MissingFetchVersion);
    }
    proof {
        assert(arg_views(values@)[0] == values@[0]@);
        assert(arg_views(values@)[1] == values@[1]@);
    }
    Ok((values[0].get_name(), values[1].get_name()))
}

/// What `publish` packages: the project in the current directory where
/// no value is given; else what the first value names, as a project of
/// this tool, or as an installed library where a second value follows.
pub fn plan_publish(values: &[Arg]) -> (plan: (PackageType, String))
    ensures
        plan.0 == if values@.len() >= 2 {
            PackageType::PkgConfig
        } else {
            PackageType::CppBuild
        },
        plan.1@ == if values@.len() == 0 {
            "."@
        } else {
            arg_views(values@)[0].name
        },
{
    if values.len() == 0 {
        return (PackageType::CppBuild, String::from_str("."));
    }
    proof {
        assert(arg_views(values@)[0] == values@[0]@);
    }
    let kind = if values.len() >= 2 {
        PackageType::PkgConfig
    } else {
        PackageType::CppBuild
    };
    (kind, values[0].get_name())
}

} // verus!
