//! Build planning: the compiler command line for a project and a build
//! mode, whether a built artifact is out of date, and the steps of running
//! the artifact.

use crate::arguments::{token_names, Arguments};
use crate::project::Project;
use crate::text::{concat, prefixed, push_prefixed, push_text, push_texts, text_is, texts};
use vstd::prelude::*;
use vstd::string::*;

verus! {

/// The way a project is compiled for one invocation of the tool.
#[derive(PartialEq, Eq, Structural, Debug, Clone, Copy)]
pub enum BuildMode {
    Debug,
    Release,
    Normal,
    Example,
    Test,
}

/// The mode that the tokens of a command line ask for. Where several
/// modifiers are present the most specific one wins: an example before a
/// release build, a release build before a debug build.
pub open spec fn resolve_mode(names: Seq<Seq<char>>) -> BuildMode {
    if names.contains("--example"@) {
        BuildMode::Example
    } else if names.contains("--release"@) {
        BuildMode::Release
    } else if names.contains("--debug"@) {
        BuildMode::Debug
    } else {
        BuildMode::Normal
    }
}

impl BuildMode {
    /// The modes that target the project's own primary artifact.
    pub open spec fn normal_class(self) -> bool {
        self == BuildMode::Debug || self == BuildMode::Release || self == BuildMode::Normal
    }

    pub fn is_normal(&self) -> (b: bool)
        ensures
            b == self.normal_class(),
    {
        *self == BuildMode::Debug || *self == BuildMode::Release || *self == BuildMode::Normal
    }

    /// The mode that a parsed command line asks for.
    pub fn from_arguments(args: &Arguments) -> (mode: BuildMode)
        ensures
            mode == resolve_mode(token_names(args.tokens())),
    {
        if args.has_arg("--example") {
            BuildMode::Example
        } else if args.has_arg("--release") {
            BuildMode::Release
        } else if args.has_arg("--debug") {
            BuildMode::Debug
        } else {
            BuildMode::Normal
        }
    }
}

/// One entry found while walking a directory tree.
#[derive(Debug)]
pub struct WalkEntry {
    /// The path of the entry.
    pub path: String,
    /// Whether the entry is a regular file.
    pub is_file: bool,
    /// When the entry was last modified, in nanoseconds since the epoch.
    pub modified: u128,
}

/// The mathematical content of a [`WalkEntry`].
pub struct WalkEntryView {
    pub path: Seq<char>,
    pub is_file: bool,
    pub modified: int,
}

impl View for WalkEntry {
    type V = WalkEntryView;

    open spec fn view(&self) -> WalkEntryView {
        WalkEntryView { path: self.path@, is_file: self.is_file, modified: self.modified as int }
    }
}

pub open spec fn walk_views(entries: Seq<WalkEntry>) -> Seq<WalkEntryView> {
    entries.map_values(|e: WalkEntry| e@)
}

/// The paths of the regular files among `entries`, in the order walked.
pub open spec fn file_paths(entries: Seq<WalkEntryView>) -> Seq<Seq<char>>
    decreases entries.len(),
{
    if entries.len() == 0 {
        Seq::empty()
    } else if entries.last().is_file {
        file_paths(entries.drop_last()).push(entries.last().path)
    } else {
        file_paths(entries.drop_last())
    }
}

/// Whether some regular file among `entries` was modified after `time`.
pub open spec fn is_stale(entries: Seq<WalkEntryView>, time: int) -> bool {
    exists|i: int| 0 <= i < entries.len() && newer_file(#[trigger] entries[i], time)
}

/// Whether `entry` is a regular file modified after `time`.
pub open spec fn newer_file(entry: WalkEntryView, time: int) -> bool {
    entry.is_file && entry.modified > time
}

/// Appends to `build` the paths of the regular files among the entries
/// walked, so that they can be handed to the compiler.
pub fn add_file(entries: &Vec<WalkEntry>, build: Vec<String>) -> (sources: Vec<String>)
    ensures
        texts(sources@) == texts(build@) + file_paths(walk_views(entries@)),
{
    let mut sources = build;
    let ghost walked = walk_views(entries@);
    let mut i: usize = 0;
    proof {
        assert(file_paths(walked.take(0)) =~= Seq::<Seq<char>>::empty());
        assert(texts(sources@) =~= texts(build@) + file_paths(walked.take(0)));
    }
    while i < entries.len()
        invariant
            i <= entries.len(),
            walked == walk_views(entries@),
            texts(sources@) == texts(build@) + file_paths(walked.take(i as int)),
        decreases entries.len() - i,
    {
        proof {
            assert(walked.take(i + 1).drop_last() =~= walked.take(i as int));
            assert(walked.take(i + 1).last() == entries@[i as int]@);
        }
        if entries[i].is_file {
            let ghost before = file_paths(walked.take(i as int));
            let path = entries[i].path.clone();
            push_text(&mut sources, path);
            proof {
                assert((texts(build@) + before).push(path@) =~= texts(build@) + before.push(
                    path@,
                ));
            }
        }
        i += 1;
    }
    proof {
        assert(walked.take(i as int) =~= walked);
    }
    sources
}

/// Whether any regular file among the entries walked has been modified
/// more recently than `time`.
pub fn last_modified(entries: &Vec<WalkEntry>, time: u128) -> (stale: bool)
    ensures
        stale == is_stale(walk_views(entries@), time as int),
{
    let ghost walked = walk_views(entries@);
    let mut i: usize = 0;
    while i < entries.len()
        invariant
            i <= entries.len(),
            walked == walk_views(entries@),
            forall|j: int| 0 <= j < i ==> !newer_file(#[trigger] walked[j], time as int),
        decreases entries.len() - i,
    {
        if entries[i].is_file && entries[i].modified > time {
            assert(newer_file(walked[i as int], time as int));
            return true;
        }
        i += 1;
    }
    false
}

/// A file that is newer than the reference time makes the tree stale,
/// wherever among the entries it is found and whatever the other entries are.
pub proof fn lemma_newer_file_makes_stale(
    entries: Seq<WalkEntryView>,
    position: int,
    added: WalkEntryView,
    time: int,
)
    requires
        0 <= position <= entries.len(),
        added.is_file,
        added.modified > time,
    ensures
        is_stale(entries.insert(position, added), time),
{
    assert(newer_file(entries.insert(position, added)[position], time));
}

/// A tree none of whose files is newer than the reference time is not stale.
pub proof fn lemma_no_newer_file_not_stale(entries: Seq<WalkEntryView>, time: int)
    requires
        forall|i: int| 0 <= i < entries.len() && entries[i].is_file ==> entries[i].modified <= time,
    ensures
        !is_stale(entries, time),
{
}

/// What the dependency prober answered for one dependency: the libraries
/// to link and the directories to search for headers, or why it failed.
#[derive(Debug)]
pub enum DependencyProbeResult {
    Found { libs: Vec<String>, include_paths: Vec<String> },
    Failed { reason: String },
}

/// The mathematical content of a [`DependencyProbeResult`].
pub enum ProbeView {
    Found { libs: Seq<Seq<char>>, include_paths: Seq<Seq<char>> },
    Failed { reason: Seq<char> },
}

impl View for DependencyProbeResult {
    type V = ProbeView;

    open spec fn view(&self) -> ProbeView {
        match self {
            DependencyProbeResult::Found { libs, include_paths } => ProbeView::Found {
                libs: texts(libs@),
                include_paths: texts(include_paths@),
            },
            DependencyProbeResult::Failed { reason } => ProbeView::Failed { reason: reason@ },
        }
    }
}

pub open spec fn probe_views(probes: Seq<DependencyProbeResult>) -> Seq<ProbeView> {
    probes.map_values(|p: DependencyProbeResult| p@)
}

/// The link flags that one probe contributes.
pub open spec fn link_flags_of(probe: ProbeView) -> Seq<Seq<char>> {
    match probe {
        ProbeView::Found { libs, include_paths } => prefixed("-l"@, libs),
        ProbeView::Failed { reason } => Seq::empty(),
    }
}

/// The include flags that one probe contributes.
pub open spec fn include_flags_of(probe: ProbeView) -> Seq<Seq<char>> {
    match probe {
        ProbeView::Found { libs, include_paths } => prefixed("-I"@, include_paths),
        ProbeView::Failed { reason } => Seq::empty(),
    }
}

/// The link flags of all probes, in the order of the dependencies. A
/// failed probe contributes none.
pub open spec fn link_flags(probes: Seq<ProbeView>) -> Seq<Seq<char>>
    decreases probes.len(),
{
    if probes.len() == 0 {
        Seq::empty()
    } else {
        link_flags(probes.drop_last()) + link_flags_of(probes.last())
    }
}

/// The include flags of all probes, in the order of the dependencies. A
/// failed probe contributes none.
pub open spec fn include_flags(probes: Seq<ProbeView>) -> Seq<Seq<char>>
    decreases probes.len(),
{
    if probes.len() == 0 {
        Seq::empty()
    } else {
        include_flags(probes.drop_last()) + include_flags_of(probes.last())
    }
}

/// The diagnostics for the probes that failed, in the order of the dependencies.
pub open spec fn probe_diagnostics(probes: Seq<ProbeView>) -> Seq<Seq<char>>
    decreases probes.len(),
{
    if probes.len() == 0 {
        Seq::empty()
    } else {
        match probes.last() {
            ProbeView::Found { libs, include_paths } => probe_diagnostics(probes.drop_last()),
            ProbeView::Failed { reason } => probe_diagnostics(probes.drop_last()).push(
                "error: "@ + reason,
            ),
        }
    }
}

/// The diagnostics to show for the probes that failed. A failed probe does
/// not stop planning: its flags are simply missing from the command line.
pub fn failed_probes(probes: &Vec<DependencyProbeResult>) -> (diagnostics: Vec<String>)
    ensures
        texts(diagnostics@) == probe_diagnostics(probe_views(probes@)),
{
    let mut diagnostics: Vec<String> = Vec::new();
    let ghost all = probe_views(probes@);
    let mut i: usize = 0;
    proof {
        assert(texts(diagnostics@) =~= probe_diagnostics(all.take(0)));
    }
    while i < probes.len()
        invariant
            i <= probes.len(),
            all == probe_views(probes@),
            texts(diagnostics@) == probe_diagnostics(all.take(i as int)),
        decreases probes.len() - i,
    {
        proof {
            assert(all.take(i + 1).drop_last() =~= all.take(i as int));
            assert(all.take(i + 1).last() == probes@[i as int]@);
        }
        match &probes[i] {
            DependencyProbeResult::Found { libs, include_paths } => {},
            DependencyProbeResult::Failed { reason } => {
                push_text(&mut diagnostics, concat("error: ", reason.as_str()));
            },
        }
        i += 1;
    }
    proof {
        assert(all.take(i as int) =~= all);
    }
    diagnostics
}

/// The mathematical content of a [`Program`].
pub struct ProgramView {
    pub name: Seq<char>,
    pub sources: Seq<Seq<char>>,
    pub dependencies: Seq<Seq<char>>,
    pub includes: Seq<Seq<char>>,
    pub program_type: Seq<char>,
    pub standard: Seq<char>,
}

/// What is handed to the compiler for one project: its sources, the flags
/// of its dependencies, the kind of artifact and the language standard.
#[derive(Debug)]
pub struct Program {
    name: String,
    sources: Vec<String>,
    dependencies: Vec<String>,
    includes: Vec<String>,
    program_type: String,
    standard: String,
}

impl View for Program {
    type V = ProgramView;

    closed spec fn view(&self) -> ProgramView {
        ProgramView {
            name: self.name@,
            sources: texts(self.sources@),
            dependencies: texts(self.dependencies@),
            includes: texts(self.includes@),
            program_type: self.program_type@,
            standard: self.standard@,
        }
    }
}

/// The directory that holds the sources of the project rooted at `path`.
pub open spec fn source_root_of(path: Seq<char>) -> Seq<char> {
    path + "/src"@
}

/// The sources of a build. The normal-class modes compile every file
/// found under the source directory; the other modes compile the one file
/// given, taken relative to the project root.
pub open spec fn planned_sources(
    path: Seq<char>,
    mode: BuildMode,
    file: Option<Seq<char>>,
    walked: Seq<WalkEntryView>,
) -> Seq<Seq<char>> {
    if mode.normal_class() {
        file_paths(walked)
    } else {
        seq![path + "/"@ + file->0]
    }
}

impl Program {
    /// The directory to walk for the sources of the project rooted at `path`.
    pub fn source_root(path: &str) -> (root: String)
        ensures
            root@ == source_root_of(path@),
    {
        concat(path, "/src")
    }

    fn create(
        project: &Project,
        path: &str,
        mode: BuildMode,
        file: Option<&str>,
        probes: &Vec<DependencyProbeResult>,
        walked: &Vec<WalkEntry>,
    ) -> (program: Self)
        requires
            project@.project_type is Some,
            mode.normal_class() || file is Some,
        ensures
            program@ == (ProgramView {
                name: project@.name,
                sources: planned_sources(
                    path@,
                    mode,
                    match file {
                        Some(f) => Some(f@),
                        None => None,
                    },
                    walk_views(walked@),
                ),
                dependencies: link_flags(probe_views(probes@)),
                includes: include_flags(probe_views(probes@)),
                program_type: project@.project_type->0,
                standard: project@.standard,
            }),
    {
        let mut dependencies: Vec<String> = Vec::new();
        let mut includes: Vec<String> = Vec::new();
        let ghost all = probe_views(probes@);
        let mut i: usize = 0;
        proof {
            assert(texts(dependencies@) =~= link_flags(all.take(0)));
            assert(texts(includes@) =~= include_flags(all.take(0)));
        }
        while i < probes.len()
            invariant
                i <= probes.len(),
                all == probe_views(probes@),
                texts(dependencies@) == link_flags(all.take(i as int)),
                texts(includes@) == include_flags(all.take(i as int)),
            decreases probes.len() - i,
        {
            proof {
                assert(all.take(i + 1).drop_last() =~= all.take(i as int));
                assert(all.take(i + 1).last() == probes@[i as int]@);
            }
            match &probes[i] {
                DependencyProbeResult::Found { libs, include_paths } => {
                    push_prefixed(&mut dependencies, "-l", libs);
                    push_prefixed(&mut includes, "-I", include_paths);
                },
                DependencyProbeResult::Failed { reason } => {
                    proof {
                        assert(link_flags(all.take(i as int)) + Seq::<Seq<char>>::empty()
                            =~= link_flags(all.take(i as int)));
                        assert(include_flags(all.take(i as int)) + Seq::<Seq<char>>::empty()
                            =~= include_flags(all.take(i as int)));
                    }
                },
            }
            i += 1;
        }
        proof {
            assert(all.take(i as int) =~= all);
        }
        let sources = if mode.is_normal() {
            let found = add_file(walked, Vec::new());
            proof {
                assert(Seq::<Seq<char>>::empty() + file_paths(walk_views(walked@))
                    =~= file_paths(walk_views(walked@)));
            }
            found
        } else {
            let mut single: Vec<String> = Vec::new();
            match file {
                Some(f) => {
                    push_text(&mut single, concat(path, "/").concat(f));
                },
                None => {},
            }
            proof {
                assert(texts(single@) =~= seq![path@ + "/"@ + file->0@]);
            }
            single
        };
        Self {
            name: project.get_name(),
            sources,
            dependencies,
            includes,
            program_type: project.get_type(),
            standard: project.get_standard(),
        }
    }

    /// The program that builds the example in `file`, a path relative to
    /// the project root.
    pub fn example(
        project: &Project,
        path: &str,
        file: &str,
        probes: &Vec<DependencyProbeResult>,
    ) -> (program: Self)
        requires
            project@.project_type is Some,
        ensures
            program@ == (ProgramView {
                name: project@.name,
                sources: seq![path@ + "/"@ + file@],
                dependencies: link_flags(probe_views(probes@)),
                includes: include_flags(probe_views(probes@)),
                program_type: project@.project_type->0,
                standard: project@.standard,
            }),
    {
        let walked: Vec<WalkEntry> = Vec::new();
        Self::create(project, path, BuildMode::Example, Some(file), probes, &walked)
    }

    /// The program that builds the test unit in `file`, a path relative to
    /// the project root.
    pub fn test(
        project: &Project,
        path: &str,
        file: &str,
        probes: &Vec<DependencyProbeResult>,
    ) -> (program: Self)
        requires
            project@.project_type is Some,
        ensures
            program@ == (ProgramView {
                name: project@.name,
                sources: seq![path@ + "/"@ + file@],
                dependencies: link_flags(probe_views(probes@)),
                includes: include_flags(probe_views(probes@)),
                program_type: project@.project_type->0,
                standard: project@.standard,
            }),
    {
        let walked: Vec<WalkEntry> = Vec::new();
        Self::create(project, path, BuildMode::Test, Some(file), probes, &walked)
    }

    /// The program that builds the project itself: `probes` holds what the
    /// prober answered for each dependency, in the order of their
    /// declaration, and `walked` what was found under the source directory.
    pub fn new(
        project: &Project,
        path: &str,
        probes: &Vec<DependencyProbeResult>,
        walked: &Vec<WalkEntry>,
    ) -> (program: Program)
        requires
            project@.project_type is Some,
        ensures
            program@ == (ProgramView {
                name: project@.name,
                sources: file_paths(walk_views(walked@)),
                dependencies: link_flags(probe_views(probes@)),
                includes: include_flags(probe_views(probes@)),
                program_type: project@.project_type->0,
                standard: project@.standard,
            }),
    {
        Self::create(project, path, BuildMode::Normal, None, probes, walked)
    }
}

/// A program to start and the arguments to start it with.
#[derive(Debug)]
pub struct CommandLine {
    pub program: String,
    pub args: Vec<String>,
}

/// The mathematical content of a [`CommandLine`].
pub struct CommandLineView {
    pub program: Seq<char>,
    pub args: Seq<Seq<char>>,
}

impl View for CommandLine {
    type V = CommandLineView;

    open spec fn view(&self) -> CommandLineView {
        CommandLineView { program: self.program@, args: texts(self.args@) }
    }
}

/// The shared library that a library project is built into.
pub open spec fn library_path(path: Seq<char>, name: Seq<char>) -> Seq<char> {
    path + "/target/lib"@ + name + ".so"@
}

/// The executable that a binary project is built into.
pub open spec fn executable_path(path: Seq<char>, name: Seq<char>) -> Seq<char> {
    path + "/target/"@ + name
}

/// The flags that the mode adds: optimisation for a release build, debug
/// symbols for a debug build, and for an example the project's own library
/// to link against.
pub open spec fn mode_flags(program: ProgramView, path: Seq<char>, mode: BuildMode) -> Seq<
    Seq<char>,
> {
    match mode {
        BuildMode::Release => seq!["-O3"@],
        BuildMode::Debug => seq!["-g"@],
        BuildMode::Example => seq![library_path(path, program.name)],
        _ => Seq::empty(),
    }
}

/// Whether the build produces a shared library. An example is always
/// built into an executable, whatever the project's own kind.
pub open spec fn builds_library(program: ProgramView, mode: BuildMode) -> bool {
    mode != BuildMode::Example && program.program_type == "lib"@
}

/// The flags that name the output: a library is compiled only, into its
/// shared object; anything else becomes an executable.
pub open spec fn output_flags(program: ProgramView, path: Seq<char>, mode: BuildMode) -> Seq<
    Seq<char>,
> {
    if builds_library(program, mode) {
        seq!["-c"@, "-o"@, library_path(path, program.name)]
    } else {
        seq!["-o"@, executable_path(path, program.name)]
    }
}

/// The flag that selects the language standard, or that switches the
/// standard library off where the manifest asks for that.
pub open spec fn standard_flag(standard: Seq<char>) -> Seq<char> {
    if standard == "nostd"@ {
        "-nostd"@
    } else {
        "-std="@ + standard
    }
}

/// The flags that planning itself puts on the command line: the header
/// directory, the flags of the mode, the output, the language standard and
/// static linking.
pub open spec fn planned_flags(program: ProgramView, path: Seq<char>, mode: BuildMode) -> Seq<
    Seq<char>,
> {
    seq!["-Iheaders/"@] + mode_flags(program, path, mode) + output_flags(program, path, mode)
        + seq![standard_flag(program.standard), "-static"@]
}

/// What the program brings to the command line: its sources, then the
/// link flags and the include flags of its dependencies.
pub open spec fn program_inputs(program: ProgramView) -> Seq<Seq<char>> {
    program.sources + program.dependencies + program.includes
}

/// The arguments handed to the compiler, in the order they are given.
pub open spec fn compiler_args(program: ProgramView, path: Seq<char>, mode: BuildMode) -> Seq<
    Seq<char>,
> {
    planned_flags(program, path, mode) + program.sources + program.dependencies
        + program.includes
}

/// The file that a build in `mode` writes, which a run in that mode
/// starts: the operand of `-o` on the compiler's command line.
pub open spec fn artifact_path(program: ProgramView, path: Seq<char>, mode: BuildMode) -> Seq<
    char,
> {
    if builds_library(program, mode) {
        library_path(path, program.name)
    } else {
        executable_path(path, program.name)
    }
}

/// The compiler invocation that builds `program` in `mode`.
pub open spec fn compiler_command(program: ProgramView, path: Seq<char>, mode: BuildMode)
    -> CommandLineView {
    CommandLineView { program: "g++"@, args: compiler_args(program, path, mode) }
}

impl Program {
    fn library_file(&self, path: &str) -> (file: String)
        ensures
            file@ == library_path(path@, self@.name),
    {
        concat(path, "/target/lib").concat(self.name.as_str()).concat(".so")
    }

    fn executable_file(&self, path: &str) -> (file: String)
        ensures
            file@ == executable_path(path@, self@.name),
    {
        concat(path, "/target/").concat(self.name.as_str())
    }

    fn is_built_as_library(&self, mode: BuildMode) -> (library: bool)
        ensures
            library == builds_library(self@, mode),
    {
        match mode {
            BuildMode::Example => false,
            _ => text_is(self.program_type.as_str(), "lib"),
        }
    }

    /// The compiler invocation that builds the program in `mode`, with the
    /// outputs placed under the target directory of the project rooted at
    /// `path`. The program itself is left as it is: an example of a library
    /// is planned as an executable without the library ceasing to be one.
    pub fn build(&self, path: &str, mode: BuildMode) -> (command: CommandLine)
        ensures
            command@ == compiler_command(self@, path@, mode),
    {
        let mut args: Vec<String> = Vec::new();
        push_text(&mut args, String::from_str("-Iheaders/"));
        match mode {
            BuildMode::Release => {
                push_text(&mut args, String::from_str("-O3"));
            },
            BuildMode::Debug => {
                push_text(&mut args, String::from_str("-g"));
            },
            BuildMode::Example => {
                push_text(&mut args, self.library_file(path));
            },
            _ => {},
        }
        let ghost with_mode = texts(args@);
        proof {
            assert(texts(Seq::<String>::empty()) =~= Seq::<Seq<char>>::empty());
            assert(with_mode =~= seq!["-Iheaders/"@] + mode_flags(self@, path@, mode));
        }
        if self.is_built_as_library(mode) {
            push_text(&mut args, String::from_str("-c"));
            push_text(&mut args, String::from_str("-o"));
            push_text(&mut args, self.library_file(path));
        } else {
            push_text(&mut args, String::from_str("-o"));
            push_text(&mut args, self.executable_file(path));
        }
        let ghost with_output = texts(args@);
        proof {
            assert(with_output =~= with_mode + output_flags(self@, path@, mode));
        }
        if text_is(self.standard.as_str(), "nostd") {
            push_text(&mut args, String::from_str("-nostd"));
        } else {
            push_text(&mut args, concat("-std=", self.standard.as_str()));
        }
        push_text(&mut args, String::from_str("-static"));
        let ghost with_standard = texts(args@);
        proof {
            assert(with_standard =~= with_output + seq![
                standard_flag(self@.standard),
                "-static"@,
            ]);
        }
        push_texts(&mut args, &self.sources);
        push_texts(&mut args, &self.dependencies);
        push_texts(&mut args, &self.includes);
        CommandLine { program: String::from_str("g++"), args }
    }
}

/// Why a run was given up.
#[derive(PartialEq, Eq, Structural, Debug, Clone, Copy)]
pub enum RunError {
    /// A library was asked to run as if it were a program.
    NotExecutable,
    /// An example was asked of a project that builds no library.
    ExampleOfBinary,
    /// Tests were asked of a project that builds no library.
    TestOfBinary,
    /// The compiler did not end normally, or reported failure.
    BuildFailed,
    /// An event arrived that the state it arrived in does not await.
    OutOfTurn,
}

/// Where a run stands.
#[derive(PartialEq, Eq, Structural, Debug, Clone, Copy)]
pub enum RunState {
    /// Nothing has been asked for yet.
    Idle,
    /// Waiting to hear whether the artifact exists.
    CheckingArtifact,
    /// Waiting for the build of a missing artifact.
    BuildingMissing,
    /// Waiting to hear whether a source is newer than the artifact.
    CheckingSources,
    /// Waiting for the rebuild of a stale artifact.
    Rebuilding,
    /// Waiting for the artifact to exit.
    Running,
    /// The run is over.
    Finished,
}

/// What happened outside since the last action was handed out.
#[derive(PartialEq, Eq, Structural, Debug, Clone, Copy)]
pub enum RunEvent {
    /// The run is to begin.
    Start,
    /// The artifact was looked for and found, or not.
    ArtifactFound(bool),
    /// The compiler ended, successfully or not.
    CompilerExited(bool),
    /// The sources were compared with the artifact: one is newer, or none.
    SourcesNewer(bool),
    /// The artifact ran and exited.
    ProgramExited,
}

/// What to do next outside.
#[derive(Debug)]
pub enum RunAction {
    /// Find out whether the artifact at `path` exists.
    CheckArtifact { path: String },
    /// Run the compiler.
    Compile(CommandLine),
    /// Find out whether a file under `root` is newer than the artifact.
    CompareTimes { root: String, artifact: String },
    /// Start the artifact and wait for it.
    Launch(CommandLine),
    /// Nothing is left to do.
    Stop,
    /// Give up, with the reason.
    Fail(RunError),
}

/// The mathematical content of a [`RunAction`].
pub enum RunActionView {
    CheckArtifact { path: Seq<char> },
    Compile(CommandLineView),
    CompareTimes { root: Seq<char>, artifact: Seq<char> },
    Launch(CommandLineView),
    Stop,
    Fail(RunError),
}

impl View for RunAction {
    type V = RunActionView;

    open spec fn view(&self) -> RunActionView {
        match self {
            RunAction::CheckArtifact { path } => RunActionView::CheckArtifact { path: path@ },
            RunAction::Compile(command) => RunActionView::Compile(command@),
            RunAction::CompareTimes { root, artifact } => RunActionView::CompareTimes {
                root: root@,
                artifact: artifact@,
            },
            RunAction::Launch(command) => RunActionView::Launch(command@),
            RunAction::Stop => RunActionView::Stop,
            RunAction::Fail(error) => RunActionView::Fail(*error),
        }
    }
}

/// What the user is told when a run is given up.
pub open spec fn run_error_text(error: RunError) -> Seq<char> {
    match error {
        RunError::NotExecutable => "not an executable file"@,
        RunError::ExampleOfBinary => "binary projects are not allowed to have examples"@,
        RunError::TestOfBinary => "binary projects are not allowed to have tests"@,
        RunError::BuildFailed => "the compiler failed"@,
        RunError::OutOfTurn => "unexpected event"@,
    }
}

impl RunError {
    /// What the user is told about this error.
    pub fn message(&self) -> (text: String)
        ensures
            text@ == run_error_text(*self),
    {
        match self {
            RunError::NotExecutable => String::from_str("not an executable file"),
            RunError::ExampleOfBinary => String::from_str(
                "binary projects are not allowed to have examples",
            ),
            RunError::TestOfBinary => String::from_str(
                "binary projects are not allowed to have tests",
            ),
            RunError::BuildFailed => String::from_str("the compiler failed"),
            RunError::OutOfTurn => String::from_str("unexpected event"),
        }
    }
}

/// The mode and the kind of artifact that do not go together, if they do
/// not: only a program can be run as itself, and only a library has
/// examples and tests.
pub open spec fn mode_conflict(program_type: Seq<char>, mode: BuildMode) -> Option<RunError> {
    if program_type != "bin"@ && mode.normal_class() {
        Some(RunError::NotExecutable)
    } else if program_type == "bin"@ && mode == BuildMode::Example {
        Some(RunError::ExampleOfBinary)
    } else if program_type == "bin"@ && mode == BuildMode::Test {
        Some(RunError::TestOfBinary)
    } else {
        None
    }
}

/// How the artifact is started: by itself, or in a debug build under the debugger.
pub open spec fn launch_command(program: ProgramView, path: Seq<char>, mode: BuildMode)
    -> CommandLineView {
    if mode == BuildMode::Debug {
        CommandLineView { program: "gdb"@, args: seq![artifact_path(program, path, mode)] }
    } else {
        CommandLineView { program: artifact_path(program, path, mode), args: Seq::empty() }
    }
}

/// One step of a run: the state that follows `state` when `event` arrives,
/// and what to do next. A conflict of mode and artifact kind ends the run
/// at its start, before anything is compiled or started. A missing
/// artifact is built; then the sources are compared with it, and it is
/// rebuilt where one of them is newer, and in a release build in any case.
pub open spec fn run_step(
    program: ProgramView,
    path: Seq<char>,
    mode: BuildMode,
    state: RunState,
    event: RunEvent,
) -> (RunState, RunActionView) {
    let artifact = artifact_path(program, path, mode);
    let compare = (
        RunState::CheckingSources,
        RunActionView::CompareTimes { root: path, artifact },
    );
    let launch = (RunState::Running, RunActionView::Launch(launch_command(program, path, mode)));
    let compile = RunActionView::Compile(compiler_command(program, path, mode));
    match (state, event) {
        (RunState::Idle, RunEvent::Start) => match mode_conflict(program.program_type, mode) {
            Some(error) => (RunState::Finished, RunActionView::Fail(error)),
            None => (RunState::CheckingArtifact, RunActionView::CheckArtifact { path: artifact }),
        },
        (RunState::CheckingArtifact, RunEvent::ArtifactFound(found)) => if found {
            compare
        } else {
            (RunState::BuildingMissing, compile)
        },
        (RunState::BuildingMissing, RunEvent::CompilerExited(success)) => if success {
            compare
        } else {
            (RunState::Finished, RunActionView::Fail(RunError::BuildFailed))
        },
        (RunState::CheckingSources, RunEvent::SourcesNewer(newer)) => if newer || mode
            == BuildMode::Release {
            (RunState::Rebuilding, compile)
        } else {
            launch
        },
        (RunState::Rebuilding, RunEvent::CompilerExited(success)) => if success {
            launch
        } else {
            (RunState::Finished, RunActionView::Fail(RunError::BuildFailed))
        },
        (RunState::Running, RunEvent::ProgramExited) => (RunState::Finished, RunActionView::Stop),
        _ => (RunState::Finished, RunActionView::Fail(RunError::OutOfTurn)),
    }
}

impl Program {
    /// The conflict between the kind of artifact and `mode`, if there is one.
    pub fn check_mode(&self, mode: BuildMode) -> (conflict: Option<RunError>)
        ensures
            conflict == mode_conflict(self@.program_type, mode),
    {
        let binary = text_is(self.program_type.as_str(), "bin");
        if !binary && mode.is_normal() {
            Some(RunError::NotExecutable)
        } else if binary && mode == BuildMode::Example {
            Some(RunError::ExampleOfBinary)
        } else if binary && mode == BuildMode::Test {
            Some(RunError::TestOfBinary)
        } else {
            None
        }
    }

    /// The file that a build in `mode` writes, which a run in that mode
    /// looks for and starts.
    pub fn artifact(&self, path: &str, mode: BuildMode) -> (file: String)
        ensures
            file@ == artifact_path(self@, path@, mode),
    {
        if self.is_built_as_library(mode) {
            self.library_file(path)
        } else {
            self.executable_file(path)
        }
    }

    fn launch(&self, path: &str, mode: BuildMode) -> (command: CommandLine)
        ensures
            command@ == launch_command(self@, path@, mode),
    {
        let mut args: Vec<String> = Vec::new();
        proof {
            assert(texts(args@) =~= Seq::<Seq<char>>::empty());
        }
        if mode == BuildMode::Debug {
            push_text(&mut args, self.artifact(path, mode));
            proof {
                assert(texts(args@) =~= seq![artifact_path(self@, path@, mode)]);
            }
            CommandLine { program: String::from_str("gdb"), args }
        } else {
            CommandLine { program: self.artifact(path, mode), args }
        }
    }

    /// Takes a run one step further: given where the run stands and what
    /// has happened outside, says where it stands now and what to do next.
    /// A run begins in [`RunState::Idle`] with [`RunEvent::Start`] and is
    /// over when it reaches [`RunState::Finished`].
    pub fn run(&self, path: &str, mode: BuildMode, state: RunState, event: RunEvent) -> (next: (
        RunState,
        RunAction,
    ))
        ensures
            (next.0, next.1@) == run_step(self@, path@, mode, state, event),
    {
        match (state, event) {
            (RunState::Idle, RunEvent::Start) => match self.check_mode(mode) {
                Some(error) => (RunState::Finished, RunAction::Fail(error)),
                None => (
                    RunState::CheckingArtifact,
                    RunAction::CheckArtifact { path: self.artifact(path, mode) },
                ),
            },
            (RunState::CheckingArtifact, RunEvent::ArtifactFound(found)) => if found {
                (
                    RunState::CheckingSources,
                    RunAction::CompareTimes {
                        root: String::from_str(path),
                        artifact: self.artifact(path, mode),
                    },
                )
            } else {
                (RunState::BuildingMissing, RunAction::Compile(self.build(path, mode)))
            },
            (RunState::BuildingMissing, RunEvent::CompilerExited(success)) => if success {
                (
                    RunState::CheckingSources,
                    RunAction::CompareTimes {
                        root: String::from_str(path),
                        artifact: self.artifact(path, mode),
                    },
                )
            } else {
                (RunState::Finished, RunAction::Fail(RunError::BuildFailed))
            },
            (RunState::CheckingSources, RunEvent::SourcesNewer(newer)) => if newer || mode
                == BuildMode::Release {
                (RunState::Rebuilding, RunAction::Compile(self.build(path, mode)))
            } else {
                (RunState::Running, RunAction::Launch(self.launch(path, mode)))
            },
            (RunState::Rebuilding, RunEvent::CompilerExited(success)) => if success {
                (RunState::Running, RunAction::Launch(self.launch(path, mode)))
            } else {
                (RunState::Finished, RunAction::Fail(RunError::BuildFailed))
            },
            (RunState::Running, RunEvent::ProgramExited) => (RunState::Finished, RunAction::Stop),
            _ => (RunState::Finished, RunAction::Fail(RunError::OutOfTurn)),
        }
    }
}

/// The text that the standard library's `Debug` formatting writes for a
/// list of strings.
pub uninterp spec fn debug_text(items: Seq<Seq<char>>) -> Seq<char>;

/// Formats a list of strings with `{:?}`, the `Debug` formatting of the
/// standard library, which writes the list in brackets, each string in
/// quotes with its special characters escaped. The text is a function of
/// the strings alone; the contract gives it a name and says no more of it.
#[verifier::external_body]
fn debug_list(items: &Vec<String>) -> (text: String)
    ensures
        text@ == debug_text(texts(items@)),
{
    format!("{:?}", items)
}

/// The report on the flags of a program, given the three lists as text.
pub open spec fn flags_report(includes: Seq<char>, libraries: Seq<char>, sources: Seq<char>)
    -> Seq<char> {
    "include paths: "@ + includes + "\n libraries: "@ + libraries + "\n source files: "@
        + sources
}

/// Puts the report on the flags of a program together from the text of
/// its include paths, of its libraries and of its source files.
pub fn report_flags(includes: &str, libraries: &str, sources: &str) -> (report: String)
    ensures
        report@ == flags_report(includes@, libraries@, sources@),
{
    concat("include paths: ", includes).concat("\n libraries: ").concat(libraries).concat(
        "\n source files: ",
    ).concat(sources)
}

impl Program {
    /// Lists what is handed to the compiler apart from the flags of the
    /// mode: the include paths, the libraries and the source files.
    pub fn get_flags(&self) -> (report: String)
        ensures
            report@ == flags_report(
                debug_text(self@.includes),
                debug_text(self@.dependencies),
                debug_text(self@.sources),
            ),
    {
        let includes = debug_list(&self.includes);
        let libraries = debug_list(&self.dependencies);
        let sources = debug_list(&self.sources);
        report_flags(includes.as_str(), libraries.as_str(), sources.as_str())
    }

    pub fn get_name(&self) -> (name: String)
        ensures
            name@ == self@.name,
    {
        self.name.clone()
    }

    /// The kind of artifact the program is built into.
    pub fn get_type(&self) -> (program_type: String)
        ensures
            program_type@ == self@.program_type,
    {
        self.program_type.clone()
    }
}

/// What a build comes to once the compiler has ended: a compiler that
/// did not end normally, or that reported failure, fails the build.
pub open spec fn build_result(compiler_succeeded: bool) -> Result<(), RunError> {
    if compiler_succeeded {
        Ok(())
    } else {
        Err(RunError::BuildFailed)
    }
}

/// Decides what a build comes to once the compiler has ended.
pub fn build_outcome(compiler_succeeded: bool) -> (outcome: Result<(), RunError>)
    ensures
        outcome == build_result(compiler_succeeded),
{
    if compiler_succeeded {
        Ok(())
    } else {
        Err(RunError::BuildFailed)
    }
}

/// `text` stands in `args` at position `at` and nowhere else.
pub open spec fn stands_once_at(args: Seq<Seq<char>>, text: Seq<char>, at: int) -> bool {
    &&& 0 <= at < args.len()
    &&& args[at] == text
    &&& forall|i: int| 0 <= i < args.len() && args[i] == text ==> i == at
}

/// Where `-o` stands on the command line of a build.
pub open spec fn output_position(program: ProgramView, path: Seq<char>, mode: BuildMode) -> int {
    1 + mode_flags(program, path, mode).len() + if builds_library(program, mode) {
        1int
    } else {
        0int
    }
}

proof fn lemma_flag_texts()
    ensures
        "-Iheaders/"@.len() == 10,
        "-O3"@.len() == 3,
        "-g"@.len() == 2 && "-g"@[1] == 'g',
        "-c"@.len() == 2 && "-c"@[1] == 'c',
        "-o"@.len() == 2 && "-o"@[1] == 'o',
        "-static"@.len() == 7,
        "-nostd"@.len() == 6,
        "-std="@.len() == 5,
        "/target/lib"@.len() == 11,
        "/target/"@.len() == 8,
        ".so"@.len() == 3,
{
    reveal_strlit("-Iheaders/");
    reveal_strlit("-O3");
    reveal_strlit("-g");
    reveal_strlit("-c");
    reveal_strlit("-o");
    reveal_strlit("-static");
    reveal_strlit("-nostd");
    reveal_strlit("-std=");
    reveal_strlit("/target/lib");
    reveal_strlit("/target/");
    reveal_strlit(".so");
}

/// The flags of planning, written out, with the lengths of the texts
/// that are no flags of two or three characters.
proof fn lemma_planned_flags(program: ProgramView, path: Seq<char>, mode: BuildMode)
    ensures
        planned_flags(program, path, mode) == seq!["-Iheaders/"@] + mode_flags(
            program,
            path,
            mode,
        ) + output_flags(program, path, mode) + seq![
            standard_flag(program.standard),
            "-static"@,
        ],
        planned_flags(program, path, mode).len() == output_position(program, path, mode) + 4,
        planned_flags(program, path, mode)[0] == "-Iheaders/"@,
        planned_flags(program, path, mode)[output_position(program, path, mode)] == "-o"@,
        planned_flags(program, path, mode)[output_position(program, path, mode) + 1]
            == artifact_path(program, path, mode),
        planned_flags(program, path, mode)[output_position(program, path, mode) + 2]
            == standard_flag(program.standard),
        planned_flags(program, path, mode)[output_position(program, path, mode) + 3]
            == "-static"@,
        mode_flags(program, path, mode).len() == 1 ==> planned_flags(program, path, mode)[1]
            == mode_flags(program, path, mode)[0],
        builds_library(program, mode) ==> planned_flags(program, path, mode)[output_position(
            program,
            path,
            mode,
        ) - 1] == "-c"@,
        standard_flag(program.standard).len() >= 5,
        library_path(path, program.name).len() >= 14,
        executable_path(path, program.name).len() >= 8,
        library_path(path, program.name) != executable_path(path, program.name),
{
    lemma_flag_texts();
    assert(library_path(path, program.name).len() == path.len() + program.name.len() + 14);
    assert(executable_path(path, program.name).len() == path.len() + program.name.len() + 8);
}

proof fn lemma_args_split(program: ProgramView, path: Seq<char>, mode: BuildMode)
    ensures
        compiler_args(program, path, mode) == planned_flags(program, path, mode)
            + program_inputs(program),
        forall|i: int|
            0 <= i < planned_flags(program, path, mode).len() ==> compiler_args(
                program,
                path,
                mode,
            )[i] == planned_flags(program, path, mode)[i],
        forall|i: int|
            planned_flags(program, path, mode).len() <= i < compiler_args(
                program,
                path,
                mode,
            ).len() ==> program_inputs(program).contains(
                #[trigger] compiler_args(program, path, mode)[i],
            ),
{
    let planned = planned_flags(program, path, mode);
    let inputs = program_inputs(program);
    let args = compiler_args(program, path, mode);
    assert(args =~= planned + inputs);
    assert forall|i: int| planned.len() <= i < args.len() implies inputs.contains(
        #[trigger] args[i],
    ) by {
        assert(args[i] == inputs[i - planned.len()]);
    }
}

/// The build writes the artifact of its mode: `-o` stands once among the
/// arguments, directly followed by the artifact, provided the program's
/// own lists hold no `-o`.
pub proof fn lemma_build_writes_the_artifact(
    program: ProgramView,
    path: Seq<char>,
    mode: BuildMode,
)
    requires
        !program_inputs(program).contains("-o"@),
    ensures
        stands_once_at(
            compiler_args(program, path, mode),
            "-o"@,
            output_position(program, path, mode),
        ),
        compiler_args(program, path, mode)[output_position(program, path, mode) + 1]
            == artifact_path(program, path, mode),
{
    lemma_flag_texts();
    lemma_planned_flags(program, path, mode);
    lemma_args_split(program, path, mode);
    let planned = planned_flags(program, path, mode);
    let args = compiler_args(program, path, mode);
    let at = output_position(program, path, mode);
    assert forall|i: int| 0 <= i < args.len() && args[i] == "-o"@ implies i == at by {
        if i < planned.len() {
            assert(args[i] == planned[i]);
            if i != at {
                assert(planned[i] != "-o"@) by {
                    if i == 1 && mode_flags(program, path, mode).len() == 1 {
                    } else if i == at - 1 {
                    } else if i == at + 1 {
                    } else if i == at + 2 {
                    } else if i == at + 3 {
                    } else {
                        assert(i == 0);
                    }
                }
            }
        } else {
            assert(program_inputs(program).contains(args[i]));
        }
    }
}

/// A run starts what the build of its mode writes: the program that is
/// launched, or that the debugger is given in a debug build, is the
/// operand of the build's `-o`.
pub proof fn lemma_run_starts_what_was_built(
    program: ProgramView,
    path: Seq<char>,
    mode: BuildMode,
)
    ensures
        compiler_args(program, path, mode)[output_position(program, path, mode)] == "-o"@,
        mode != BuildMode::Debug ==> launch_command(program, path, mode).program
            == compiler_args(program, path, mode)[output_position(program, path, mode) + 1],
        mode == BuildMode::Debug ==> launch_command(program, path, mode).args == seq![
            compiler_args(program, path, mode)[output_position(program, path, mode) + 1],
        ],
{
    lemma_planned_flags(program, path, mode);
    lemma_args_split(program, path, mode);
}

/// The flags tell the mode: the optimisation flag is on the command line
/// exactly in a release build, the flag for debug symbols exactly in a
/// debug build, provided the program's own lists hold neither.
pub proof fn lemma_flags_tell_the_mode(program: ProgramView, path: Seq<char>, mode: BuildMode)
    requires
        !program_inputs(program).contains("-O3"@),
        !program_inputs(program).contains("-g"@),
    ensures
        compiler_args(program, path, mode).contains("-O3"@) <==> mode == BuildMode::Release,
        compiler_args(program, path, mode).contains("-g"@) <==> mode == BuildMode::Debug,
        mode == BuildMode::Release ==> stands_once_at(
            compiler_args(program, path, mode),
            "-O3"@,
            1,
        ),
        mode == BuildMode::Debug ==> stands_once_at(compiler_args(program, path, mode), "-g"@, 1),
{
    lemma_flag_texts();
    lemma_planned_flags(program, path, mode);
    lemma_args_split(program, path, mode);
    let planned = planned_flags(program, path, mode);
    let args = compiler_args(program, path, mode);
    let at = output_position(program, path, mode);
    assert forall|i: int| 0 <= i < args.len() && (args[i] == "-O3"@ || args[i] == "-g"@) implies i
        == 1 && mode_flags(program, path, mode).len() == 1 && args[i] == mode_flags(
        program,
        path,
        mode,
    )[0] by {
        if i < planned.len() {
            assert(args[i] == planned[i]);
            if i == 1 && mode_flags(program, path, mode).len() == 1 {
            } else if i == at - 1 && builds_library(program, mode) {
            } else if i == at {
            } else if i == at + 1 {
            } else if i == at + 2 {
            } else if i == at + 3 {
            } else {
                assert(i == 0);
            }
        } else {
            assert(program_inputs(program).contains(args[i]));
        }
    }
    if mode == BuildMode::Release || mode == BuildMode::Debug {
        assert(args[1] == planned[1]);
    }
}

/// A release build is optimised and carries no debug symbols: the
/// optimisation flag stands once, before the output flag, and the flag
/// for debug symbols stands nowhere, provided the program's own lists
/// hold neither of the two.
pub proof fn lemma_release_build_is_optimised(program: ProgramView, path: Seq<char>)
    requires
        !program_inputs(program).contains("-O3"@),
        !program_inputs(program).contains("-g"@),
    ensures
        stands_once_at(compiler_args(program, path, BuildMode::Release), "-O3"@, 1),
        1 < output_position(program, path, BuildMode::Release),
        compiler_args(program, path, BuildMode::Release)[output_position(
            program,
            path,
            BuildMode::Release,
        )] == "-o"@,
        forall|i: int|
            0 <= i < output_position(program, path, BuildMode::Release) ==> compiler_args(
                program,
                path,
                BuildMode::Release,
            )[i] != "-o"@,
        !compiler_args(program, path, BuildMode::Release).contains("-g"@),
{
    let mode = BuildMode::Release;
    lemma_flag_texts();
    lemma_planned_flags(program, path, mode);
    lemma_args_split(program, path, mode);
    lemma_flags_tell_the_mode(program, path, mode);
    let planned = planned_flags(program, path, mode);
    let args = compiler_args(program, path, mode);
    let at = output_position(program, path, mode);
    assert(args[at] == planned[at]);
    assert forall|i: int| 0 <= i < at implies args[i] != "-o"@ by {
        assert(args[i] == planned[i]);
        if i == 0 {
        } else if i == 1 {
        } else {
            assert(i == at - 1 && builds_library(program, mode));
        }
    }
}

/// An example of a library is built as a program that links against the
/// library: the library's own artifact stands once among the arguments,
/// as an input before the output flag; the output is the executable; and
/// nothing is compiled only. This holds provided neither the standard
/// flag nor the program's own lists are the text of the library's path,
/// and the lists hold no `-c`.
pub proof fn lemma_example_is_built_as_a_program(program: ProgramView, path: Seq<char>)
    requires
        !program_inputs(program).contains(library_path(path, program.name)),
        !program_inputs(program).contains("-c"@),
        standard_flag(program.standard) != library_path(path, program.name),
    ensures
        stands_once_at(
            compiler_args(program, path, BuildMode::Example),
            library_path(path, program.name),
            1,
        ),
        compiler_args(program, path, BuildMode::Example)[2] == "-o"@,
        compiler_args(program, path, BuildMode::Example)[3] == executable_path(
            path,
            program.name,
        ),
        artifact_path(program, path, BuildMode::Example) == executable_path(path, program.name),
        !compiler_args(program, path, BuildMode::Example).contains("-c"@),
{
    let mode = BuildMode::Example;
    lemma_flag_texts();
    lemma_planned_flags(program, path, mode);
    lemma_args_split(program, path, mode);
    let planned = planned_flags(program, path, mode);
    let args = compiler_args(program, path, mode);
    let library = library_path(path, program.name);
    assert(planned.len() == 6);
    assert(args[1] == planned[1] && args[2] == planned[2] && args[3] == planned[3]);
    assert forall|i: int| 0 <= i < args.len() implies (args[i] == library ==> i == 1) && args[i]
        != "-c"@ by {
        if i < planned.len() {
            assert(args[i] == planned[i]);
            if i == 0 {
            } else if i == 1 {
            } else if i == 2 {
            } else if i == 3 {
            } else if i == 4 {
            } else {
                assert(i == 5);
            }
        } else {
            assert(program_inputs(program).contains(args[i]));
        }
    }
}

} // verus!
