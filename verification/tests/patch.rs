use cbake::cmake::generator::add_executable;
use cbake::patch::reconcile;
use cbake::patch::replace_command;

fn strings(items: &[&str]) -> Vec<String> {
    items.iter().map(|s| s.to_string()).collect()
}

#[test]
fn existing_declaration_is_replaced() {
    let document = "project(X)\n\nadd_executable(${PROJECT_NAME}\n    old.cpp\n)\n";
    let fragment = add_executable(&strings(&["a.cpp", "b.cpp"]));
    let (updated, replaced) = reconcile(document, "add_executable", &fragment);
    assert!(replaced);
    assert_eq!(updated, "project(X)\n\nadd_executable(${PROJECT_NAME}\n    a.cpp\n    b.cpp\n)\n");
    assert_eq!(updated.matches("add_executable").count(), 1);
    assert!(updated.starts_with("project(X)\n"));
    assert!(!updated.contains("old.cpp"));
    assert!(updated.contains("a.cpp") && updated.contains("b.cpp"));
}

#[test]
fn missing_keyword_appends_the_fragment() {
    let document = "project(X)\n";
    let fragment = add_executable(&strings(&["a.cpp"]));
    let (updated, replaced) = reconcile(document, "add_executable", &fragment);
    assert!(!replaced);
    assert_eq!(updated, "project(X)\n\nadd_executable(${PROJECT_NAME}\n    a.cpp\n)\n\n");
    let (updated, replaced) = reconcile("", "k", "  f  ");
    assert!(!replaced);
    assert_eq!(updated, "  f  ");
}

#[test]
fn keyword_without_a_closing_parenthesis_appends() {
    let (updated, replaced) = reconcile("x add_executable(", "add_executable", " new() ");
    assert!(!replaced);
    assert_eq!(updated, "x add_executable( new() ");
    let (updated, replaced) = reconcile(") add_executable", "add_executable", "new()");
    assert!(!replaced);
    assert_eq!(updated, ") add_executable" .to_string() + "new()");
}

#[test]
fn only_the_first_declaration_is_replaced() {
    let (updated, replaced) = reconcile("a k(1) b k(2) c", "k", "\n k(9)\n");
    assert!(replaced);
    assert_eq!(updated, "a k(9) b k(2) c");
}

#[test]
fn span_ends_at_the_first_parenthesis() {
    let (updated, replaced) = reconcile("k(a(b)c) tail", "k", "K()");
    assert!(replaced);
    assert_eq!(updated, "K()c) tail");
    let (updated, replaced) = reconcile("ab)c", "b)", "X");
    assert!(replaced);
    assert_eq!(updated, "aXc");
}

#[test]
fn characters_outside_ascii_are_counted_as_characters() {
    let (updated, replaced) = reconcile("# café ✓\nk(ü)\n# fin é", "k", " k(ß) ");
    assert!(replaced);
    assert_eq!(updated, "# café ✓\nk(ß)\n# fin é");
}

#[test]
fn empty_keyword_stands_at_the_start() {
    let (updated, replaced) = reconcile("ab)cd", "", "X");
    assert!(replaced);
    assert_eq!(updated, "Xcd");
}

#[test]
fn reconciling_twice_is_reconciling_once() {
    let fragment = add_executable(&strings(&["a.cpp", "b.cpp"]));
    for document in [
        "project(X)\n\nadd_executable(${PROJECT_NAME}\n    old.cpp\n)\n",
        "project(X)\n",
        "",
        "add_executable()",
        "# add_executable(old)\nadd_executable(x)\n",
    ] {
        let (once, _) = reconcile(document, "add_executable", &fragment);
        let (twice, replaced) = reconcile(&once, "add_executable", &fragment);
        assert!(replaced);
        assert_eq!(once, twice);
    }
}

#[test]
fn unterminated_keyword_breaks_the_repetition() {
    let fragment = "\nadd_executable(x)\n";
    let (once, replaced) = reconcile("add_executable", "add_executable", fragment);
    assert!(!replaced);
    assert_eq!(once, "add_executable\nadd_executable(x)\n");
    let (twice, replaced) = reconcile(&once, "add_executable", fragment);
    assert!(replaced);
    assert_eq!(twice, "add_executable(x)\n");
}

#[test]
fn replace_command_reports_what_it_did() {
    let mut buffer = "set(A 1)\nadd_executable(p\n  m.cpp\n)\nset(B 2)\n".to_string();
    assert!(replace_command(&mut buffer, "add_executable", "\n\nadd_executable(p\n  n.cpp\n)\n\n"));
    assert_eq!(buffer, "set(A 1)\nadd_executable(p\n  n.cpp\n)\nset(B 2)\n");
    let mut buffer = "set(A 1)\n".to_string();
    assert!(!replace_command(&mut buffer, "add_executable", "add_executable(p)"));
    assert_eq!(buffer, "set(A 1)\n");
}
