use cppbuild::arguments::{Arg, ArgType, Arguments, Command, Flag, Operation};

fn argv(tokens: &[&str]) -> Vec<String> {
    tokens.iter().map(|t| t.to_string()).collect()
}

fn names(args: &[Arg]) -> Vec<String> {
    args.iter().map(|a| a.get_name()).collect()
}

#[test]
fn first_token_is_the_command_even_with_dashes() {
    let parsed = Arguments::new(argv(&["--help", "x"]));
    let tokens = parsed.get_flags();
    assert_eq!(tokens[0].get_kind(), ArgType::OPTION);
    assert_eq!(tokens[1].get_kind(), ArgType::VALUE);
    assert_eq!(parsed.get_flag_index("--help"), Some(0));
}

#[test]
fn tokens_are_classified_by_prefix() {
    let parsed = Arguments::new(argv(&["new", "demo", "--lib", "a--b", "-x", "--"]));
    let kinds: Vec<ArgType> = parsed.get_flags().iter().map(|a| a.get_kind()).collect();
    assert_eq!(
        kinds,
        vec![
            ArgType::OPTION,
            ArgType::VALUE,
            ArgType::FLAG,
            ArgType::VALUE,
            ArgType::VALUE,
            ArgType::FLAG
        ]
    );
}

#[test]
fn each_flag_owns_the_values_up_to_the_next_flag() {
    let parsed = Arguments::new(argv(&["fetch", "opencv", "4.3.0", "--a", "1", "2", "--b", "--c", "3"]));
    let lead = parsed.get_flag("fetch").unwrap();
    assert_eq!(names(lead.get_values()), vec!["opencv", "4.3.0"]);
    let a = parsed.get_flag("--a").unwrap();
    assert_eq!(names(&a.get_value_vec()), vec!["1", "2"]);
    let b = parsed.get_flag("--b").unwrap();
    assert!(b.get_values().is_empty());
    let c = parsed.get_flag("--c").unwrap();
    assert_eq!(names(c.get_values()), vec!["3"]);
    assert_eq!(parsed.get_flag_index("--c"), Some(3));
    assert_eq!(parsed.get_flag_index("--d"), None);
    assert!(parsed.get_flag("3").is_none());
}

#[test]
fn one_group_per_flag_plus_the_leading_group() {
    let tokens = ["run", "a", "--x", "b", "c", "--y", "--x", "d"];
    let parsed = Arguments::new(argv(&tokens));
    let groups = parsed.get_groups();
    let group_names: Vec<String> = groups.iter().map(|g| g.get_name()).collect();
    assert_eq!(group_names, vec!["run", "--x", "--y", "--x"]);
    // the groups, each written as its name and its values, give back the tokens
    let mut rebuilt: Vec<String> = Vec::new();
    let mut members: Vec<String> = Vec::new();
    for (position, group) in groups.iter().enumerate() {
        rebuilt.push(group.get_name());
        rebuilt.extend(names(group.get_values()));
        if position == 0 {
            members.push(group.get_name());
        }
        members.extend(names(group.get_values()));
    }
    assert_eq!(rebuilt, argv(&tokens));
    // without the flags that head them, the groups hold the command and the values
    assert_eq!(members, vec!["run", "a", "b", "c", "d"]);
}

#[test]
fn repeated_flag_keeps_its_own_values() {
    let mut parsed = Arguments::new(argv(&["run", "--x", "1", "--x", "2"]));
    parsed.invoke_callback("--x", Command::Build);
    let invocations = parsed.parse();
    assert_eq!(invocations.len(), 2);
    assert_eq!(names(invocations[0].get_values()), vec!["1"]);
    assert_eq!(names(invocations[1].get_values()), vec!["2"]);
    // lookup by name finds the first group of that name
    assert_eq!(parsed.get_flag_index("--x"), Some(1));
    assert_eq!(names(parsed.get_flag("--x").unwrap().get_values()), vec!["1"]);
}

#[test]
fn command_alone_yields_one_empty_group() {
    let mut parsed = Arguments::new(argv(&["clean"]));
    assert!(parsed.get_flag("clean").unwrap().get_values().is_empty());
    assert!(parsed.parse().is_empty());
    parsed.invoke_callback("clean", Command::Clean);
    let invocations = parsed.parse();
    assert_eq!(invocations.len(), 1);
    assert_eq!(invocations[0].get_command(), Command::Clean);
    assert_eq!(invocations[0].get_trigger(), "clean");
    assert!(invocations[0].get_values().is_empty());
}

#[test]
fn dispatch_follows_token_order_not_registration_order() {
    let mut parsed = Arguments::new(argv(&["build", "x", "--get-flags", "--help", "y"]));
    parsed.invoke_callback("--help", Command::Help);
    parsed.invoke_callback("--get-flags", Command::GetFlags);
    parsed.invoke_callback("build", Command::Build);
    let invocations = parsed.parse();
    let commands: Vec<Command> = invocations.iter().map(|i| i.get_command()).collect();
    assert_eq!(commands, vec![Command::Build, Command::GetFlags, Command::Help]);
    assert_eq!(names(invocations[0].get_values()), vec!["x"]);
    assert!(invocations[1].get_values().is_empty());
    assert_eq!(names(invocations[2].get_values()), vec!["y"]);
}

#[test]
fn unregistered_groups_are_ignored() {
    let mut parsed = Arguments::new(argv(&["build", "--release", "--verbose", "v"]));
    parsed.invoke_callback("run", Command::Run);
    assert!(parsed.parse().is_empty());
    parsed.invoke_callback("build", Command::Build);
    let invocations = parsed.parse();
    assert_eq!(invocations.len(), 1);
    assert_eq!(invocations[0].get_command(), Command::Build);
}

#[test]
fn handler_is_invoked_once_per_occurrence_of_its_trigger() {
    let mut parsed = Arguments::new(argv(&["t", "--a", "--b", "--a", "--a", "--c"]));
    parsed.invoke_callback("--a", Command::Test);
    parsed.invoke_callback("--c", Command::Clean);
    let invocations = parsed.parse();
    let of_a = invocations.iter().filter(|i| i.get_trigger() == "--a").count();
    let of_b = invocations.iter().filter(|i| i.get_trigger() == "--b").count();
    let of_c = invocations.iter().filter(|i| i.get_trigger() == "--c").count();
    assert_eq!((of_a, of_b, of_c), (3, 0, 1));
    assert_eq!(invocations.len(), 4);
}

#[test]
fn registration_is_visible() {
    let mut parsed = Arguments::new(argv(&["build"]));
    assert!(!parsed.is_registered("build"));
    parsed.invoke_callback("build", Command::Build);
    assert!(parsed.is_registered("build"));
    assert!(!parsed.is_registered("run"));
}

#[test]
fn select_returns_the_first_operation_of_that_name() {
    let ops = vec![
        Operation::new("build".to_string(), Command::Build),
        Operation::new("run".to_string(), Command::Run),
        Operation::new("run".to_string(), Command::Test),
    ];
    let found = Operation::select("run", &ops).unwrap();
    assert_eq!(found.get_command(), Command::Run);
    assert_eq!(found.get_trigger(), "run");
    assert!(Operation::select("new", &ops).is_none());
    assert!(Operation::select("run", &[]).is_none());
}

#[test]
fn arguments_can_be_looked_up_by_text() {
    let parsed = Arguments::new(argv(&["run", "--release", "fast", "--release"]));
    assert!(parsed.has_arg("--release"));
    assert!(parsed.has_arg("run"));
    assert!(parsed.has_arg("fast"));
    assert!(!parsed.has_arg("--debug"));
    assert!(!parsed.has_arg("--rel"));
    let found = parsed.get_arg("--release").unwrap();
    assert_eq!(found.get_name(), "--release");
    assert_eq!(found.get_kind(), ArgType::FLAG);
    assert_eq!(parsed.get_arg("run").unwrap().get_kind(), ArgType::OPTION);
    assert!(parsed.get_arg("slow").is_none());
    assert_eq!(names(&parsed.get_flags()), vec!["run", "--release", "fast", "--release"]);
}

#[test]
fn flag_values_can_be_extended() {
    let mut flag = Flag::new("--x".to_string(), vec![Arg::new("a".to_string(), ArgType::VALUE)]);
    flag.extend_from_slice(&[
        Arg::new("b".to_string(), ArgType::VALUE),
        Arg::new("c".to_string(), ArgType::VALUE),
    ]);
    assert_eq!(flag.get_name(), "--x");
    assert_eq!(names(flag.get_values()), vec!["a", "b", "c"]);
    assert_eq!(names(&flag.get_value_vec()), vec!["a", "b", "c"]);
    flag.extend_from_slice(&[]);
    assert_eq!(flag.get_values().len(), 3);
}
