use cppbuild::harness::{
    create_test, Declaration, DeclarationKind, HarnessError, Item, ItemType, ParsedFile, Test,
};
use cppbuild::project::Project;

const MARKER: &str = "///test";

fn directive() -> String {
    format!("#{} <vector>", ["inc", "lude"].concat())
}

fn project() -> Project {
    Project::with_owners("demo".to_string(), Some("lib".to_string()), vec![])
}

fn declaration(
    kind: DeclarationKind,
    name: Option<&str>,
    comment: Option<&str>,
    system: bool,
    start: usize,
    end: usize,
) -> Declaration {
    Declaration {
        kind,
        display_name: name.map(|n| n.to_string()),
        comment: comment.map(|c| c.to_string()),
        in_system_header: system,
        start,
        end,
    }
}

/// A file made of the given fragments, each on a line of its own, with a
/// declaration for each of them.
fn parsed(fragments: &[(DeclarationKind, Option<&str>, Option<&str>, bool, &str)]) -> ParsedFile {
    let mut content: Vec<u8> = Vec::new();
    let mut declarations = Vec::new();
    for (kind, name, comment, system, text) in fragments.iter() {
        let start = content.len();
        content.extend_from_slice(text.as_bytes());
        let end = content.len();
        content.push(b'\n');
        declarations.push(declaration(*kind, *name, *comment, *system, start, end));
    }
    ParsedFile { content, declarations }
}

fn texts(items: &[Item]) -> Vec<String> {
    items.iter().map(|i| i.get_text()).collect()
}

#[test]
fn directive_shared_by_two_files_is_emitted_once() {
    let directive = directive();
    let first = parsed(&[
        (DeclarationKind::InclusionDirective, None, None, false, &directive),
        (DeclarationKind::FunctionDecl, Some("test_sum()"), Some(MARKER), false, "int test_sum() { return 0; }"),
    ]);
    let second = parsed(&[
        (DeclarationKind::InclusionDirective, None, None, false, &directive),
        (DeclarationKind::FunctionDecl, Some("helper()"), None, false, "int helper() { return 1; }"),
    ]);
    let files = vec![first, second];
    let harness = Test::from_file(&project(), ".", MARKER, &files).unwrap();
    let entities = harness.get_entities();
    assert_eq!(entities.len(), 2);
    let unit = harness.build_main();
    let expected = format!("{}\nint test_sum();\nint main(){{\n\ttest_sum();\n}}\n", directive);
    assert_eq!(unit, expected);
    assert_eq!(unit.matches(directive.as_str()).count(), 1);
    assert_eq!(unit.matches("int test_sum();").count(), 1);
    assert_eq!(unit.matches("int main(){").count(), 1);
    assert_eq!(unit.matches("\ttest_sum();").count(), 1);
    assert_eq!(harness.main_path(), "./target/test_demo.cpp");
}

#[test]
fn unit_orders_directives_before_declarations_before_calls() {
    let directive = directive();
    let file = parsed(&[
        (DeclarationKind::FunctionDecl, Some("test_b()"), Some(MARKER), false, "int test_b() {}"),
        (DeclarationKind::UsingDirective, None, None, false, "using namespace std"),
        (DeclarationKind::InclusionDirective, None, None, false, &directive),
        (DeclarationKind::FunctionDecl, Some("test_a()"), Some(MARKER), false, "int test_a() {}"),
        (DeclarationKind::Other, Some("x"), None, false, "int x;"),
    ]);
    let harness = Test::from_file(&project(), ".", MARKER, &vec![file]).unwrap();
    let expected = format!(
        "{}\nusing namespace std;\nint test_b();\nint test_a();\nint main(){{\n\ttest_b();\n\ttest_a();\n}}\n",
        directive
    );
    assert_eq!(harness.build_main(), expected);
}

#[test]
fn unit_without_tests_is_still_complete() {
    let harness = Test::from_file(&project(), ".", MARKER, &vec![]).unwrap();
    assert!(harness.get_entities().is_empty());
    assert_eq!(harness.build_main(), "int main(){\n}\n");
}

#[test]
fn only_marked_functions_and_own_directives_are_kept() {
    let directive = directive();
    let file = parsed(&[
        (DeclarationKind::InclusionDirective, None, None, true, &directive),
        (DeclarationKind::UsingDirective, None, None, true, "using namespace sys"),
        (DeclarationKind::UsingDirective, None, Some("///other"), false, "using namespace own"),
        (DeclarationKind::FunctionDecl, Some("a()"), Some("///tests"), false, "int a() {}"),
        (DeclarationKind::FunctionDecl, Some("b()"), None, false, "int b() {}"),
        (DeclarationKind::FunctionDecl, Some("c()"), Some(MARKER), true, "int c() {}"),
        (DeclarationKind::Other, Some("d"), Some(MARKER), false, "int d;"),
    ]);
    let harness = Test::from_file(&project(), "/w", MARKER, &vec![file]).unwrap();
    let entities = harness.get_entities();
    assert_eq!(texts(&entities), vec!["using namespace own", "int c() {}"]);
    assert_eq!(entities[0].get_type(), ItemType::UsingDirective);
    assert_eq!(entities[0].get_name(), None);
    assert_eq!(entities[0].get_comment(), Some("///other".to_string()));
    assert_eq!(entities[1].get_type(), ItemType::FunctionDecl);
    assert_eq!(entities[1].get_name(), Some("c()".to_string()));
    assert_eq!(harness.main_path(), "/w/target/test_demo.cpp");
}

#[test]
fn same_text_of_another_kind_is_another_item() {
    let file = parsed(&[
        (DeclarationKind::UsingDirective, None, None, false, "x"),
        (DeclarationKind::InclusionDirective, None, None, false, "x"),
        (DeclarationKind::UsingDirective, None, Some("c"), false, "x"),
        (DeclarationKind::InclusionDirective, None, None, false, "y"),
    ]);
    let harness = Test::from_file(&project(), ".", MARKER, &vec![file]).unwrap();
    let entities = harness.get_entities();
    let kinds: Vec<ItemType> = entities.iter().map(|i| i.get_type()).collect();
    assert_eq!(
        kinds,
        vec![ItemType::UsingDirective, ItemType::InclusionDirective, ItemType::InclusionDirective]
    );
    assert_eq!(texts(&entities), vec!["x", "x", "y"]);
    // of two equal fragments the first stays
    assert_eq!(entities[0].get_comment(), None);
}

#[test]
fn harvesting_twice_yields_the_same_items() {
    let directive = directive();
    let make = || {
        vec![
            parsed(&[
                (DeclarationKind::InclusionDirective, None, None, false, &directive),
                (DeclarationKind::FunctionDecl, Some("t()"), Some(MARKER), false, "int t() {}"),
            ]),
            parsed(&[(DeclarationKind::InclusionDirective, None, None, false, &directive)]),
        ]
    };
    let once = Test::from_file(&project(), ".", MARKER, &make()).unwrap();
    let mut doubled = make();
    doubled.extend(make());
    let twice = Test::from_file(&project(), ".", MARKER, &doubled).unwrap();
    assert_eq!(texts(&once.get_entities()), texts(&twice.get_entities()));
    assert_eq!(once.build_main(), twice.build_main());
    // appending what is already there changes nothing
    let mut harness = Test::from_file(&project(), ".", MARKER, &make()).unwrap();
    let mut again = once.get_entities();
    harness.append(&mut again);
    assert!(again.is_empty());
    assert_eq!(texts(&harness.get_entities()), texts(&once.get_entities()));
}

#[test]
fn append_adds_only_new_items() {
    let directive = directive();
    let mut harness = Test::from_file(
        &project(),
        ".",
        MARKER,
        &vec![parsed(&[(DeclarationKind::InclusionDirective, None, None, false, &directive)])],
    )
    .unwrap();
    let other = Test::from_file(
        &project(),
        ".",
        MARKER,
        &vec![parsed(&[
            (DeclarationKind::FunctionDecl, Some("t()"), Some(MARKER), false, "int t() {}"),
            (DeclarationKind::InclusionDirective, None, None, false, &directive),
        ])],
    )
    .unwrap();
    let mut more = other.get_entities();
    harness.append(&mut more);
    assert_eq!(texts(&harness.get_entities()), vec![directive.clone(), "int t() {}".to_string()]);
    assert_eq!(harness.build_main(), format!("{}\nint t();\nint main(){{\n\tt();\n}}\n", directive));
}

#[test]
fn item_holds_the_exact_bytes_of_its_range() {
    let content = "abc déf ghi".as_bytes();
    let item = Item::new(None, None, content, 4, 8, ItemType::UsingDirective).unwrap();
    assert_eq!(item.get_text(), "déf");
    assert_eq!(item.identity(), (1u8, "déf".to_string()));
    let empty = Item::new(None, None, content, 3, 3, ItemType::InclusionDirective).unwrap();
    assert_eq!(empty.get_text(), "");
    assert_eq!(empty.identity(), (2u8, String::new()));
    let whole = Item::new(Some("f()".to_string()), None, content, 0, content.len(), ItemType::FunctionDecl)
        .unwrap();
    assert_eq!(whole.get_text(), "abc déf ghi");
    assert_eq!(whole.identity().0, 0u8);
}

#[test]
fn item_errors() {
    let content = "abc déf".as_bytes();
    let range = |start: usize, end: usize| {
        Item::new(None, None, content, start, end, ItemType::UsingDirective).err()
    };
    assert_eq!(range(5, 4), Some(HarnessError::RangeOutside));
    assert_eq!(range(0, content.len() + 1), Some(HarnessError::RangeOutside));
    // the range ends inside the two bytes of the accented letter
    assert_eq!(range(4, 6), Some(HarnessError::NotText));
    assert_eq!(
        Item::new(None, Some(MARKER.to_string()), content, 0, 3, ItemType::FunctionDecl).err(),
        Some(HarnessError::Unnamed)
    );
    // the range is looked at before the name
    assert_eq!(
        Item::new(None, None, content, 9, 3, ItemType::FunctionDecl).err(),
        Some(HarnessError::RangeOutside)
    );
}

#[test]
fn first_failing_declaration_ends_the_harvest() {
    let mut file = parsed(&[
        (DeclarationKind::UsingDirective, None, None, false, "using a"),
        (DeclarationKind::FunctionDecl, None, Some(MARKER), false, "int t() {}"),
        (DeclarationKind::UsingDirective, None, None, false, "using b"),
    ]);
    file.declarations[2].end = 10_000;
    let made = Test::from_file(&project(), ".", MARKER, &vec![file]);
    assert_eq!(made.err(), Some(HarnessError::Unnamed));
    // a declaration that is not kept cannot fail
    let mut skipped = parsed(&[(DeclarationKind::Other, None, None, false, "int x;")]);
    skipped.declarations[0].end = 10_000;
    assert!(Test::from_file(&project(), ".", MARKER, &vec![skipped]).is_ok());
    let mut outside = parsed(&[(DeclarationKind::UsingDirective, None, None, false, "using a")]);
    outside.declarations[0].end = 10_000;
    let good = parsed(&[(DeclarationKind::UsingDirective, None, None, false, "using a")]);
    assert_eq!(
        Test::from_file(&project(), ".", MARKER, &vec![good, outside]).err(),
        Some(HarnessError::RangeOutside)
    );
}

#[test]
fn create_test_uses_the_test_marker() {
    let file = parsed(&[
        (DeclarationKind::FunctionDecl, Some("t()"), Some("///test"), false, "int t() {}"),
        (DeclarationKind::FunctionDecl, Some("u()"), Some("//test"), false, "int u() {}"),
    ]);
    let unit = create_test(&project(), &vec![file]).unwrap();
    assert_eq!(unit.path, "./target/test_demo.cpp");
    assert_eq!(unit.text, "int t();\nint main(){\n\tt();\n}\n");
    let mut broken = parsed(&[(DeclarationKind::UsingDirective, None, None, false, "using a")]);
    broken.declarations[0].start = 99;
    assert_eq!(create_test(&project(), &vec![broken]).err(), Some(HarnessError::RangeOutside));
}

#[test]
fn source_roots_are_sources_and_tests() {
    assert_eq!(Test::source_roots("."), vec!["./src".to_string(), "./tests".to_string()]);
}
