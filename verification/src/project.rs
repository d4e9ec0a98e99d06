//! The project description that a manifest yields: the package with its
//! owners and dependencies, and the examples found beside it.

pub use crate::harness::{Item, ItemType, Test};
use crate::text::{clone_opt_text, clone_texts, concat, opt_text, texts};
use vstd::pervasive::unreached;
use vstd::prelude::*;
use vstd::std_specs::cmp::PartialEqSpecImpl;
use vstd::string::*;

verus! {

/// The mathematical content of an [`Owner`].
pub struct OwnerView {
    pub name: Seq<char>,
    pub email: Seq<char>,
}

/// The mathematical content of a [`Dependency`].
pub struct DependencyView {
    pub name: Seq<char>,
    pub version: Seq<char>,
    pub url: Option<Seq<char>>,
}

/// The mathematical content of a [`Package`].
pub struct PackageView {
    pub name: Seq<char>,
    pub version: Seq<char>,
    pub standard: Seq<char>,
    pub project_type: Option<Seq<char>>,
    pub repository: Option<Seq<char>>,
    pub owners: Seq<OwnerView>,
    pub dependency: Option<Seq<DependencyView>>,
    pub dev_dependency: Option<Seq<DependencyView>>,
    pub description: Option<Seq<char>>,
    pub license: Option<Seq<char>>,
}

/// What to ask the dependency prober for: a library by name, at exactly
/// one version or at any.
pub struct ProbeRequestView {
    pub name: Seq<char>,
    pub exact_version: Option<Seq<char>>,
}

#[derive(Debug)]
pub struct Owner {
    name: String,
    email: String,
}

#[derive(Debug)]
pub struct Dependency {
    name: String,
    version: String,
    url: Option<String>,
}

/// What to ask the dependency prober for.
#[derive(Debug)]
pub struct ProbeRequest {
    pub name: String,
    pub exact_version: Option<String>,
}

#[derive(Debug)]
pub struct Package {
    name: String,
    version: String,
    standard: String,
    project_type: Option<String>,
    repository: Option<String>,
    owners: Vec<Owner>,
    pub dependency: Option<Vec<Dependency>>,
    dev_dependency: Option<Vec<Dependency>>,
    description: Option<String>,
    license: Option<String>,
}

/// The examples of a project, by the paths found under its examples directory.
#[derive(Debug)]
pub struct Example {
    exec_paths: Vec<String>,
}

#[derive(Debug)]
pub struct Project {
    package: Package,
}

pub open spec fn owner_views(owners: Seq<Owner>) -> Seq<OwnerView> {
    owners.map_values(|o: Owner| o@)
}

pub open spec fn dependency_views(dependencies: Seq<Dependency>) -> Seq<DependencyView> {
    dependencies.map_values(|d: Dependency| d@)
}

pub open spec fn opt_dependency_views(dependencies: Option<Vec<Dependency>>) -> Option<
    Seq<DependencyView>,
> {
    match dependencies {
        Some(list) => Some(dependency_views(list@)),
        None => None,
    }
}

pub open spec fn package_views(packages: Seq<Package>) -> Seq<PackageView> {
    packages.map_values(|p: Package| p@)
}

/// Two packages are the same package when their names and versions agree.
pub open spec fn same_package(a: PackageView, b: PackageView) -> bool {
    a.version == b.version && a.name == b.name
}

/// The email address given to an owner of whom only the name is known.
pub open spec fn unset_email() -> Seq<char> {
    "unset"@
}

/// The version that a new project starts at.
pub open spec fn initial_version() -> Seq<char> {
    "0.1.0"@
}

/// The language standard that a new project starts with.
pub open spec fn initial_standard() -> Seq<char> {
    "c++17"@
}

/// The version constraint that any version meets.
pub open spec fn any_version() -> Seq<char> {
    "*"@
}

/// The package of a project that has just been created.
pub open spec fn initial_package(
    name: Seq<char>,
    project_type: Option<Seq<char>>,
    owners: Seq<OwnerView>,
) -> PackageView {
    PackageView {
        name,
        version: initial_version(),
        standard: initial_standard(),
        project_type,
        repository: None,
        owners,
        dependency: None,
        dev_dependency: None,
        description: None,
        license: None,
    }
}

/// The owner list of a project whose only owner is the user `name`.
pub open spec fn sole_owner(name: Seq<char>) -> Seq<OwnerView> {
    seq![OwnerView { name, email: unset_email() }]
}

/// The request that probes for a dependency: its version is asked for
/// exactly, unless it is the constraint that any version meets.
pub open spec fn probe_request_of(dependency: DependencyView) -> ProbeRequestView {
    ProbeRequestView {
        name: dependency.name,
        exact_version: if dependency.version == any_version() {
            None
        } else {
            Some(dependency.version)
        },
    }
}

/// Where the manifest of the project rooted at `path` lies.
pub open spec fn manifest_path_of(path: Seq<char>) -> Seq<char> {
    path + "/build.toml"@
}

/// The path under which the example called `name` is looked for.
pub open spec fn example_path_of(name: Seq<char>) -> Seq<char> {
    "examples/"@ + name + ".cpp"@
}

impl View for Owner {
    type V = OwnerView;

    closed spec fn view(&self) -> OwnerView {
        OwnerView { name: self.name@, email: self.email@ }
    }
}

impl View for Dependency {
    type V = DependencyView;

    closed spec fn view(&self) -> DependencyView {
        DependencyView { name: self.name@, version: self.version@, url: opt_text(self.url) }
    }
}

impl View for ProbeRequest {
    type V = ProbeRequestView;

    open spec fn view(&self) -> ProbeRequestView {
        ProbeRequestView { name: self.name@, exact_version: opt_text(self.exact_version) }
    }
}

impl View for Package {
    type V = PackageView;

    closed spec fn view(&self) -> PackageView {
        PackageView {
            name: self.name@,
            version: self.version@,
            standard: self.standard@,
            project_type: opt_text(self.project_type),
            repository: opt_text(self.repository),
            owners: owner_views(self.owners@),
            dependency: opt_dependency_views(self.dependency),
            dev_dependency: opt_dependency_views(self.dev_dependency),
            description: opt_text(self.description),
            license: opt_text(self.license),
        }
    }
}

impl View for Example {
    type V = Seq<Seq<char>>;

    closed spec fn view(&self) -> Seq<Seq<char>> {
        texts(self.exec_paths@)
    }
}

impl View for Project {
    type V = PackageView;

    closed spec fn view(&self) -> PackageView {
        self.package@
    }
}

proof fn lemma_owner_views_push(owners: Seq<Owner>, owner: Owner)
    ensures
        owner_views(owners.push(owner)) == owner_views(owners).push(owner@),
{
    assert(owner_views(owners.push(owner)) =~= owner_views(owners).push(owner@));
}

proof fn lemma_dependency_views_push(dependencies: Seq<Dependency>, dependency: Dependency)
    ensures
        dependency_views(dependencies.push(dependency)) == dependency_views(dependencies).push(
            dependency@,
        ),
{
    assert(dependency_views(dependencies.push(dependency)) =~= dependency_views(
        dependencies,
    ).push(dependency@));
}

fn clone_owners(owners: &Vec<Owner>) -> (copy: Vec<Owner>)
    ensures
        owner_views(copy@) == owner_views(owners@),
{
    let mut copy: Vec<Owner> = Vec::new();
    let mut i: usize = 0;
    proof {
        assert(owner_views(copy@) =~= owner_views(owners@.take(0)));
    }
    while i < owners.len()
        invariant
            i <= owners.len(),
            owner_views(copy@) == owner_views(owners@.take(i as int)),
        decreases owners.len() - i,
    {
        let item = owners[i].clone();
        proof {
            lemma_owner_views_push(copy@, item);
            lemma_owner_views_push(owners@.take(i as int), owners@[i as int]);
            assert(owners@.take(i + 1) =~= owners@.take(i as int).push(owners@[i as int]));
        }
        copy.push(item);
        i += 1;
    }
    proof {
        assert(owners@.take(i as int) =~= owners@);
    }
    copy
}

fn clone_dependencies(dependencies: &Vec<Dependency>) -> (copy: Vec<Dependency>)
    ensures
        dependency_views(copy@) == dependency_views(dependencies@),
{
    let mut copy: Vec<Dependency> = Vec::new();
    let mut i: usize = 0;
    proof {
        assert(dependency_views(copy@) =~= dependency_views(dependencies@.take(0)));
    }
    while i < dependencies.len()
        invariant
            i <= dependencies.len(),
            dependency_views(copy@) == dependency_views(dependencies@.take(i as int)),
        decreases dependencies.len() - i,
    {
        let item = dependencies[i].clone();
        proof {
            lemma_dependency_views_push(copy@, item);
            lemma_dependency_views_push(dependencies@.take(i as int), dependencies@[i as int]);
            assert(dependencies@.take(i + 1) =~= dependencies@.take(i as int).push(
                dependencies@[i as int],
            ));
        }
        copy.push(item);
        i += 1;
    }
    proof {
        assert(dependencies@.take(i as int) =~= dependencies@);
    }
    copy
}

fn clone_opt_dependencies(dependencies: &Option<Vec<Dependency>>) -> (copy: Option<
    Vec<Dependency>,
>)
    ensures
        opt_dependency_views(copy) == opt_dependency_views(*dependencies),
{
    match dependencies {
        Some(list) => Some(clone_dependencies(list)),
        None => None,
    }
}

impl Clone for Owner {
    fn clone(&self) -> (copy: Self)
        ensures
            copy@ == self@,
    {
        Owner { name: self.name.clone(), email: self.email.clone() }
    }
}

impl Clone for Dependency {
    fn clone(&self) -> (copy: Self)
        ensures
            copy@ == self@,
    {
        Dependency {
            name: self.name.clone(),
            version: self.version.clone(),
            url: clone_opt_text(&self.url),
        }
    }
}

impl Clone for Package {
    fn clone(&self) -> (copy: Self)
        ensures
            copy@ == self@,
    {
        Package {
            name: self.name.clone(),
            version: self.version.clone(),
            standard: self.standard.clone(),
            project_type: clone_opt_text(&self.project_type),
            repository: clone_opt_text(&self.repository),
            owners: clone_owners(&self.owners),
            dependency: clone_opt_dependencies(&self.dependency),
            dev_dependency: clone_opt_dependencies(&self.dev_dependency),
            description: clone_opt_text(&self.description),
            license: clone_opt_text(&self.license),
        }
    }
}

impl Clone for Example {
    fn clone(&self) -> (copy: Self)
        ensures
            copy@ == self@,
    {
        Example { exec_paths: clone_texts(&self.exec_paths) }
    }
}

impl Owner {
    pub fn new(name: String) -> (owner: Self)
        ensures
            owner@ == (OwnerView { name: name@, email: unset_email() }),
    {
        Self { name, email: String::from_str("unset") }
    }

    /// An owner whose email address is known.
    pub fn with_email(name: String, email: String) -> (owner: Self)
        ensures
            owner@ == (OwnerView { name: name@, email: email@ }),
    {
        Self { name, email }
    }

    pub fn get_name(&self) -> (name: String)
        ensures
            name@ == self@.name,
    {
        self.name.clone()
    }

    pub fn get_email(&self) -> (email: String)
        ensures
            email@ == self@.email,
    {
        self.email.clone()
    }
}

impl Dependency {
    pub fn new(name: String, version: String, url: Option<String>) -> (dependency: Self)
        ensures
            dependency@ == (DependencyView {
                name: name@,
                version: version@,
                url: opt_text(url),
            }),
    {
        Self { name, version, url }
    }

    pub fn get_name(&self) -> (name: String)
        ensures
            name@ == self@.name,
    {
        self.name.clone()
    }

    pub fn get_version(&self) -> (version: String)
        ensures
            version@ == self@.version,
    {
        self.version.clone()
    }

    pub fn get_url(&self) -> (url: Option<String>)
        ensures
            opt_text(url) == self@.url,
    {
        clone_opt_text(&self.url)
    }

    /// What to ask the dependency prober for on behalf of this dependency.
    pub fn probe_request(&self) -> (request: ProbeRequest)
        ensures
            request@ == probe_request_of(self@),
    {
        let any = String::from_str("*");
        if self.version == any {
            ProbeRequest { name: self.name.clone(), exact_version: None }
        } else {
            ProbeRequest { name: self.name.clone(), exact_version: Some(self.version.clone()) }
        }
    }
}

impl Package {
    pub fn new(
        name: String,
        version: String,
        standard: String,
        project_type: Option<String>,
        owners: Vec<Owner>,
        repository: Option<String>,
    ) -> (package: Self)
        ensures
            package@ == (PackageView {
                name: name@,
                version: version@,
                standard: standard@,
                project_type: opt_text(project_type),
                repository: opt_text(repository),
                owners: owner_views(owners@),
                dependency: None,
                dev_dependency: None,
                description: None,
                license: None,
            }),
    {
        Self {
            name,
            version,
            standard,
            project_type,
            repository,
            owners,
            description: None,
            license: None,
            dependency: None,
            dev_dependency: None,
        }
    }

    /// A package with every field of the manifest given.
    pub fn from_parts(
        name: String,
        version: String,
        standard: String,
        project_type: Option<String>,
        repository: Option<String>,
        owners: Vec<Owner>,
        dependency: Option<Vec<Dependency>>,
        dev_dependency: Option<Vec<Dependency>>,
        description: Option<String>,
        license: Option<String>,
    ) -> (package: Self)
        ensures
            package@ == (PackageView {
                name: name@,
                version: version@,
                standard: standard@,
                project_type: opt_text(project_type),
                repository: opt_text(repository),
                owners: owner_views(owners@),
                dependency: opt_dependency_views(dependency),
                dev_dependency: opt_dependency_views(dev_dependency),
                description: opt_text(description),
                license: opt_text(license),
            }),
    {
        Self {
            name,
            version,
            standard,
            project_type,
            repository,
            owners,
            dependency,
            dev_dependency,
            description,
            license,
        }
    }

    pub fn get_name(&self) -> (name: String)
        ensures
            name@ == self@.name,
    {
        self.name.clone()
    }

    pub fn get_version(&self) -> (version: String)
        ensures
            version@ == self@.version,
    {
        self.version.clone()
    }

    pub fn get_description(&self) -> (description: Option<String>)
        ensures
            opt_text(description) == self@.description,
    {
        clone_opt_text(&self.description)
    }

    pub fn get_standard(&self) -> (standard: String)
        ensures
            standard@ == self@.standard,
    {
        self.standard.clone()
    }

    pub fn get_project_type(&self) -> (project_type: Option<String>)
        ensures
            opt_text(project_type) == self@.project_type,
    {
        clone_opt_text(&self.project_type)
    }

    pub fn get_repository(&self) -> (repository: Option<String>)
        ensures
            opt_text(repository) == self@.repository,
    {
        clone_opt_text(&self.repository)
    }

    pub fn get_license(&self) -> (license: Option<String>)
        ensures
            opt_text(license) == self@.license,
    {
        clone_opt_text(&self.license)
    }

    pub fn get_owners(&self) -> (owners: Vec<Owner>)
        ensures
            owner_views(owners@) == self@.owners,
    {
        clone_owners(&self.owners)
    }

    pub fn get_dev_dependencies(&self) -> (dependencies: Option<Vec<Dependency>>)
        ensures
            opt_dependency_views(dependencies) == self@.dev_dependency,
    {
        clone_opt_dependencies(&self.dev_dependency)
    }
}

impl PartialEq for Package {
    /// Two packages are the same when their names and versions agree.
    fn eq(&self, other: &Self) -> (same: bool) {
        self.version == other.version && self.name == other.name
    }
}

impl PartialEqSpecImpl for Package {
    open spec fn obeys_eq_spec() -> bool {
        true
    }

    open spec fn eq_spec(&self, other: &Self) -> bool {
        same_package(self@, other@)
    }
}

/// Calls `whoami::username`, which names the account the process runs
/// under. The name differs from account to account, so nothing is
/// promised of it.
#[verifier::external_body]
fn current_username() -> String {
    whoami::username()
}

impl Project {
    /// A new project. Where no owners are given, its only owner is the
    /// user the process runs as.
    pub fn new(name: String, project_type: Option<String>, owners: Option<Vec<Owner>>) -> (project:
        Self)
        ensures
            match owners {
                Some(list) => project@ == initial_package(
                    name@,
                    opt_text(project_type),
                    owner_views(list@),
                ),
                None => exists|user: Seq<char>|
                    project@ == initial_package(
                        name@,
                        opt_text(project_type),
                        #[trigger] sole_owner(user),
                    ),
            },
    {
        match owners {
            Some(list) => Self::with_owners(name, project_type, list),
            None => {
                let user = current_username();
                let mut list: Vec<Owner> = Vec::new();
                let owner = Owner::new(user);
                proof {
                    lemma_owner_views_push(list@, owner);
                    assert(owner_views(list@).push(owner@) =~= sole_owner(user@));
                }
                list.push(owner);
                Self::with_owners(name, project_type, list)
            },
        }
    }

    /// A new project with the given owners, at the initial version and
    /// language standard.
    pub fn with_owners(name: String, project_type: Option<String>, owners: Vec<Owner>) -> (project:
        Self)
        ensures
            project@ == initial_package(name@, opt_text(project_type), owner_views(owners@)),
    {
        Self {
            package: Package::new(
                name,
                String::from_str("0.1.0"),
                String::from_str("c++17"),
                project_type,
                owners,
                None,
            ),
        }
    }

    /// The project that a manifest's package describes.
    pub fn from_package(package: Package) -> (project: Self)
        ensures
            project@ == package@,
    {
        Self { package }
    }

    /// Where the manifest of the project rooted at `path` lies.
    pub fn manifest_path(path: &str) -> (manifest: String)
        ensures
            manifest@ == manifest_path_of(path@),
    {
        concat(path, "/build.toml")
    }

    pub fn get_package(&self) -> (package: Package)
        ensures
            package@ == self@,
    {
        self.package.clone()
    }

    pub fn get_dependencies(&self) -> (dependencies: Option<Vec<Dependency>>)
        ensures
            opt_dependency_views(dependencies) == self@.dependency,
    {
        clone_opt_dependencies(&self.package.dependency)
    }

    /// Whether the manifest names the kind of artifact the project builds.
    pub fn has_type(&self) -> (b: bool)
        ensures
            b == self@.project_type is Some,
    {
        self.package.project_type.is_some()
    }

    /// The kind of artifact the project builds.
    pub fn get_type(&self) -> (project_type: String)
        requires
            self@.project_type is Some,
        ensures
            project_type@ == self@.project_type->0,
    {
        match &self.package.project_type {
            Some(kind) => kind.clone(),
            None => unreached(),
        }
    }

    pub fn get_version(&self) -> (version: String)
        ensures
            version@ == self@.version,
    {
        self.package.version.clone()
    }

    pub fn get_name(&self) -> (name: String)
        ensures
            name@ == self@.name,
    {
        self.package.name.clone()
    }

    pub fn get_standard(&self) -> (standard: String)
        ensures
            standard@ == self@.standard,
    {
        self.package.standard.clone()
    }
}

impl Example {
    /// The directory that holds the examples of the project rooted at `path`.
    pub fn directory(path: &str) -> (directory: String)
        ensures
            directory@ == path@ + "/examples"@,
    {
        concat(path, "/examples")
    }

    /// The examples of a project, from the paths found by walking its
    /// examples directory.
    pub fn new(exec_paths: Vec<String>) -> (examples: Self)
        ensures
            examples@ == texts(exec_paths@),
    {
        Self { exec_paths }
    }

    /// The path of the example called `name`, if it is among the paths found.
    pub fn find(&self, name: &str) -> (found: Option<String>)
        ensures
            match found {
                Some(path) => path@ == example_path_of(name@) && self@.contains(
                    example_path_of(name@),
                ),
                None => !self@.contains(example_path_of(name@)),
            },
    {
        let path = concat("examples/", name).concat(".cpp");
        let mut i: usize = 0;
        while i < self.exec_paths.len()
            invariant
                i <= self.exec_paths.len(),
                path@ == example_path_of(name@),
                forall|j: int| 0 <= j < i ==> texts(self.exec_paths@)[j] != path@,
            decreases self.exec_paths.len() - i,
        {
            if self.exec_paths[i] == path {
                assert(texts(self.exec_paths@)[i as int] == path@);
                return Some(path);
            }
            i += 1;
        }
        None
    }
}

} // verus!
