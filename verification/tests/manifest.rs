use cppbuild::project::{Dependency, Example, Owner, Package, Project};

fn package(name: &str, version: &str) -> Package {
    Package::new(
        name.to_string(),
        version.to_string(),
        "c++17".to_string(),
        Some("bin".to_string()),
        vec![Owner::new("alice".to_string())],
        None,
    )
}

#[test]
fn owner_email_is_unset_until_given() {
    let owner = Owner::new("alice".to_string());
    assert_eq!(owner.get_name(), "alice");
    assert_eq!(owner.get_email(), "unset");
    let known = Owner::with_email("bob".to_string(), "bob@example.org".to_string());
    assert_eq!(known.get_name(), "bob");
    assert_eq!(known.get_email(), "bob@example.org");
}

#[test]
fn new_project_starts_at_the_initial_version_and_standard() {
    let owners = vec![Owner::new("alice".to_string()), Owner::new("bob".to_string())];
    let project = Project::new("demo".to_string(), Some("lib".to_string()), Some(owners));
    assert_eq!(project.get_name(), "demo");
    assert_eq!(project.get_version(), "0.1.0");
    assert_eq!(project.get_standard(), "c++17");
    assert!(project.has_type());
    assert_eq!(project.get_type(), "lib");
    assert!(project.get_dependencies().is_none());
    let package = project.get_package();
    assert_eq!(package.get_name(), "demo");
    assert_eq!(package.get_version(), "0.1.0");
    assert_eq!(package.get_standard(), "c++17");
    assert_eq!(package.get_project_type(), Some("lib".to_string()));
    assert_eq!(package.get_description(), None);
    assert_eq!(package.get_repository(), None);
    assert_eq!(package.get_license(), None);
    assert!(package.get_dev_dependencies().is_none());
    let names: Vec<String> = package.get_owners().iter().map(|o| o.get_name()).collect();
    assert_eq!(names, vec!["alice", "bob"]);
}

#[test]
fn project_without_owners_belongs_to_the_current_user() {
    let project = Project::new("demo".to_string(), None, None);
    assert!(!project.has_type());
    let owners = project.get_package().get_owners();
    assert_eq!(owners.len(), 1);
    assert_eq!(owners[0].get_name(), whoami::username());
    assert_eq!(owners[0].get_email(), "unset");
    assert_eq!(project.get_version(), "0.1.0");
}

#[test]
fn project_with_an_empty_owner_list_has_no_owner() {
    let project = Project::new("demo".to_string(), None, Some(vec![]));
    assert!(project.get_package().get_owners().is_empty());
    let same = Project::with_owners("demo".to_string(), None, vec![]);
    assert!(same.get_package().get_owners().is_empty());
}

#[test]
fn project_of_a_manifest_keeps_every_field() {
    let dependencies = vec![
        Dependency::new("opencv".to_string(), "4.3.0".to_string(), None),
        Dependency::new("png".to_string(), "*".to_string(), Some("http://png".to_string())),
    ];
    let package = Package::from_parts(
        "viewer".to_string(),
        "2.0.1".to_string(),
        "c++20".to_string(),
        Some("bin".to_string()),
        Some("http://repo".to_string()),
        vec![Owner::with_email("alice".to_string(), "a@example.org".to_string())],
        Some(dependencies),
        Some(vec![Dependency::new("catch".to_string(), "3".to_string(), None)]),
        Some("shows pictures".to_string()),
        Some("MIT".to_string()),
    );
    let project = Project::from_package(package);
    assert_eq!(project.get_name(), "viewer");
    assert_eq!(project.get_version(), "2.0.1");
    assert_eq!(project.get_standard(), "c++20");
    assert_eq!(project.get_type(), "bin");
    let found = project.get_dependencies().unwrap();
    assert_eq!(found.len(), 2);
    assert_eq!(found[0].get_name(), "opencv");
    assert_eq!(found[0].get_version(), "4.3.0");
    assert_eq!(found[0].get_url(), None);
    assert_eq!(found[1].get_url(), Some("http://png".to_string()));
    let package = project.get_package();
    assert_eq!(package.get_description(), Some("shows pictures".to_string()));
    assert_eq!(package.get_repository(), Some("http://repo".to_string()));
    assert_eq!(package.get_license(), Some("MIT".to_string()));
    assert_eq!(package.get_dev_dependencies().unwrap()[0].get_name(), "catch");
    assert_eq!(package.get_owners()[0].get_email(), "a@example.org");
    assert_eq!(package.dependency.as_ref().unwrap().len(), 2);
}

#[test]
fn probe_request_asks_for_an_exact_version_unless_any_will_do() {
    let exact = Dependency::new("opencv".to_string(), "4.3.0".to_string(), None).probe_request();
    assert_eq!(exact.name, "opencv");
    assert_eq!(exact.exact_version, Some("4.3.0".to_string()));
    let any = Dependency::new("png".to_string(), "*".to_string(), None).probe_request();
    assert_eq!(any.name, "png");
    assert_eq!(any.exact_version, None);
    let starred = Dependency::new("x".to_string(), "**".to_string(), None).probe_request();
    assert_eq!(starred.exact_version, Some("**".to_string()));
}

#[test]
fn packages_are_equal_by_name_and_version() {
    assert!(package("a", "1") == package("a", "1"));
    assert!(package("a", "1") != package("a", "2"));
    assert!(package("a", "1") != package("b", "1"));
    let other_standard = Package::new(
        "a".to_string(),
        "1".to_string(),
        "c++11".to_string(),
        Some("lib".to_string()),
        vec![],
        Some("http://elsewhere".to_string()),
    );
    assert!(package("a", "1") == other_standard);
}

#[test]
fn manifest_lies_in_the_project_root() {
    assert_eq!(Project::manifest_path("."), "./build.toml");
    assert_eq!(Project::manifest_path("/home/alice/demo"), "/home/alice/demo/build.toml");
}

#[test]
fn example_is_found_by_its_path_under_examples() {
    let examples = Example::new(vec![
        "examples".to_string(),
        "examples/imshow.cpp".to_string(),
        "./examples/other.cpp".to_string(),
    ]);
    assert_eq!(examples.find("imshow"), Some("examples/imshow.cpp".to_string()));
    assert_eq!(examples.find("other"), None);
    assert_eq!(examples.find("imshow.cpp"), None);
    assert_eq!(Example::new(vec![]).find("imshow"), None);
    assert_eq!(Example::directory("."), "./examples");
}
