use cppbuild::arguments::{Arg, ArgType, Arguments, Command};
use cppbuild::commands::{plan_fetch, plan_new, plan_publish, register_commands, UsageError};
use cppbuild::upstream::PackageType;

fn argv(tokens: &[&str]) -> Vec<String> {
    tokens.iter().map(|t| t.to_string()).collect()
}

fn values(names: &[&str]) -> Vec<Arg> {
    names.iter().map(|n| Arg::new(n.to_string(), ArgType::VALUE)).collect()
}

fn commands_for(tokens: &[&str]) -> Vec<Command> {
    let mut args = Arguments::new(argv(tokens));
    register_commands(&mut args);
    args.parse().iter().map(|i| i.get_command()).collect()
}

#[test]
fn every_misuse_has_its_own_positive_exit_code() {
    let errors = [
        (UsageError::MissingProjectName, 1),
        (UsageError::ProjectDirectory, 3),
        (UsageError::SourceDirectory, 4),
        (UsageError::HeaderDirectory, 5),
        (UsageError::MissingFetchName, 6),
        (UsageError::MissingFetchVersion, 7),
    ];
    for (error, code) in errors.iter() {
        assert_eq!(error.exit_code(), *code);
    }
}

#[test]
fn each_command_is_registered_under_its_trigger() {
    assert_eq!(commands_for(&["new", "demo"]), vec![Command::New]);
    assert_eq!(commands_for(&["build"]), vec![Command::Build]);
    assert_eq!(commands_for(&["run"]), vec![Command::Run]);
    assert_eq!(commands_for(&["test"]), vec![Command::Test]);
    assert_eq!(commands_for(&["fetch", "a", "1"]), vec![Command::Fetch]);
    assert_eq!(commands_for(&["publish"]), vec![Command::Publish]);
    assert_eq!(commands_for(&["clean"]), vec![Command::Clean]);
    assert_eq!(commands_for(&["--help"]), vec![Command::Help]);
    assert_eq!(commands_for(&["-h"]), vec![Command::Help]);
    assert_eq!(commands_for(&["--get-flags"]), vec![Command::GetFlags]);
}

#[test]
fn modifiers_are_no_triggers() {
    assert_eq!(commands_for(&["build", "--release"]), vec![Command::Build]);
    assert_eq!(commands_for(&["run", "--example", "--debug"]), vec![Command::Run]);
    assert_eq!(commands_for(&["new", "demo", "--lib"]), vec![Command::New]);
    assert!(commands_for(&["frobnicate", "--release"]).is_empty());
    assert_eq!(commands_for(&["build", "--help"]), vec![Command::Build, Command::Help]);
    // a trigger that stands as a value starts nothing
    assert_eq!(commands_for(&["build", "run"]), vec![Command::Build]);
}

#[test]
fn new_needs_a_project_name() {
    let args = Arguments::new(argv(&["new"]));
    assert_eq!(plan_new(&[], &args).err(), Some(UsageError::MissingProjectName));
}

#[test]
fn new_plans_a_program_by_default() {
    let args = Arguments::new(argv(&["new", "demo"]));
    let plan = plan_new(&values(&["demo", "extra"]), &args).unwrap();
    assert_eq!(plan.name, "demo");
    assert_eq!(plan.project_type, "bin");
    assert_eq!(plan.manifest, "demo/build.toml");
    let steps: Vec<(String, UsageError)> =
        plan.directories.iter().map(|d| (d.path.clone(), d.failure)).collect();
    assert_eq!(
        steps,
        vec![
            ("demo".to_string(), UsageError::ProjectDirectory),
            ("demo/src".to_string(), UsageError::SourceDirectory),
            ("demo/headers".to_string(), UsageError::HeaderDirectory),
        ]
    );
}

#[test]
fn new_plans_a_library_when_asked() {
    let args = Arguments::new(argv(&["new", "shapes", "--lib"]));
    let lead = args.get_flag("new").unwrap();
    let plan = plan_new(lead.get_values(), &args).unwrap();
    assert_eq!(plan.name, "shapes");
    assert_eq!(plan.project_type, "lib");
}

#[test]
fn fetch_needs_a_name_and_a_version() {
    assert_eq!(plan_fetch(&[]).err(), Some(UsageError::MissingFetchName));
    assert_eq!(plan_fetch(&values(&["opencv"])).err(), Some(UsageError::MissingFetchVersion));
    assert_eq!(
        plan_fetch(&values(&["opencv", "4.3.0", "more"])),
        Ok(("opencv".to_string(), "4.3.0".to_string()))
    );
}

#[test]
fn publish_packages_the_current_project_by_default() {
    assert_eq!(plan_publish(&[]), (PackageType::CppBuild, ".".to_string()));
    assert_eq!(plan_publish(&values(&["../demo"])), (PackageType::CppBuild, "../demo".to_string()));
    assert_eq!(
        plan_publish(&values(&["opencv", "pkg-config"])),
        (PackageType::PkgConfig, "opencv".to_string())
    );
}
