use cbake::cmake::Version;
use cbake::cmake::exec::CMakeFailure;
use cbake::cmake::exec::IoError;
use cbake::commands::NEW_PROJECT_STANDARD;
use cbake::commands::TARGET_KEYWORD;
use cbake::commands::build_err;
use cbake::commands::build_type_name;
use cbake::commands::configure_args;
use cbake::commands::new_project_document;
use cbake::commands::refresh_target;
use cbake::commands::update_target;
use cbake::project::FileName;
use cbake::project::check_project_name;
use cbake::project::parse_project_name;
use cbake::project_layout::BUILD_PATH;
use cbake::project_layout::DEBUG_TARGET_PATH;
use cbake::project_layout::Entry;
use cbake::project_layout::RELEASE_TARGET_PATH;
use cbake::project_layout::collect_sources;
use cbake::project_layout::has_source_extension;

fn strings(items: &[&str]) -> Vec<String> {
    items.iter().map(|s| s.to_string()).collect()
}

fn entry(path: &str, is_file: bool, extension: Option<&str>) -> Entry {
    Entry { path: path.to_string(), is_file, extension: extension.map(|e| e.to_string()) }
}

const NAME_HELP: &str = "Project name must consist only of ASCII characters excluding whitespaces";

#[test]
fn project_name_is_the_last_component() {
    assert_eq!(parse_project_name(FileName::Name("demo".to_string())).unwrap(), "demo");
    assert_eq!(parse_project_name(FileName::Name("".to_string())).unwrap(), "");
    assert_eq!(parse_project_name(FileName::Name("a\tb".to_string())).unwrap(), "a\tb");
}

#[test]
fn project_name_is_refused() {
    let error = parse_project_name(FileName::Missing).unwrap_err();
    assert_eq!(error.error, "invalid path");
    assert_eq!(error.what, "Cannot parse a project name");
    assert_eq!(
        error.help,
        Some("This command creates a new directory with project contents. The path must end with a non existing directory name".to_string())
    );
    let error = parse_project_name(FileName::NotUnicode).unwrap_err();
    assert_eq!(error.error, "Invalid project name");
    assert_eq!(error.what, "Cannot parse a project name");
    assert_eq!(error.help, Some(NAME_HELP.to_string()));
    for name in ["my project", " ", "prøve", "名前"] {
        let error = parse_project_name(FileName::Name(name.to_string())).unwrap_err();
        assert_eq!(error.error, "Invalid project name");
        assert_eq!(error.what, "Project name verification failed");
        assert_eq!(error.help, Some(NAME_HELP.to_string()));
        assert!(!check_project_name(name));
    }
    assert!(check_project_name("demo-1_x.y"));
    assert!(check_project_name("\u{7f}"));
    assert!(!check_project_name("\u{80}"));
}

#[test]
fn sources_are_picked_by_extension() {
    for extension in ["cpp", "h", "hpp", "c"] {
        assert!(has_source_extension(extension));
    }
    for extension in ["", "cc", "cxx", "CPP", "hp", "cpp ", "txt", "o"] {
        assert!(!has_source_extension(extension));
    }
    let entries = vec![
        entry("./main.cpp", true, Some("cpp")),
        entry("./build", false, None),
        entry("./CMakeLists.txt", true, Some("txt")),
        entry("./util.h", true, Some("h")),
        entry("./dir.c", false, Some("c")),
        entry("./Makefile", true, None),
        entry("./util.hpp", true, Some("hpp")),
        entry("./old.c", true, Some("c")),
        entry("./main.cpp", true, Some("cpp")),
    ];
    assert_eq!(collect_sources(&entries), vec!["./main.cpp", "./util.h", "./util.hpp", "./old.c", "./main.cpp"]);
    assert_eq!(collect_sources(&Vec::new()), Vec::<String>::new());
}

#[test]
fn layout_paths() {
    assert_eq!(BUILD_PATH, "build");
    assert_eq!(DEBUG_TARGET_PATH, "build/Debug");
    assert_eq!(RELEASE_TARGET_PATH, "build/Release");
}

#[test]
fn document_of_a_new_project() {
    assert_eq!(NEW_PROJECT_STANDARD, 11);
    let text = new_project_document("hello".to_string(), Version::with_revision(3, 16, 3), strings(&["./main.cpp"]));
    let expected = String::new()
        + "cmake_minimum_required(VERSION 3.1)\n\n"
        + "project(hello)\n\n"
        + "set(CMAKE_CXX_STANDARD 11)\n"
        + "#-------- Warning: This section will be overwritten by cbake utility. Don't change it manually if you will use it --------\n"
        + "\nadd_executable(${PROJECT_NAME}\n    ./main.cpp\n)\n\n"
        + "#--------------------------------------------------------------------------------------------------------------------------\n";
    assert_eq!(text, expected);
    let text = new_project_document("hello".to_string(), Version::new(2, 8), Vec::new());
    assert_eq!(text, "cmake_minimum_required(VERSION 2.8)\n\nproject(hello)\n\nset(CMAKE_CXX_STANDARD 11)\n");
}

#[test]
fn target_is_refreshed_with_sorted_sources() {
    assert_eq!(TARGET_KEYWORD, "add_executable");
    let document = "project(X)\n\nadd_executable(${PROJECT_NAME}\n    old.cpp\n)\n# end\n";
    let updated = refresh_target(document, strings(&["./b.cpp", "./a.h", "./a.cpp", "./B.cpp"]));
    assert_eq!(
        updated,
        "project(X)\n\nadd_executable(${PROJECT_NAME}\n    ./B.cpp\n    ./a.cpp\n    ./a.h\n    ./b.cpp\n)\n# end\n"
    );
    let updated = refresh_target("project(X)\n", strings(&["z.c", "a.c"]));
    assert_eq!(updated, "project(X)\n\nadd_executable(${PROJECT_NAME}\n    a.c\n    z.c\n)\n\n");
    let updated = update_target("project(X)\n", &strings(&["z.c", "a.c"]));
    assert_eq!(updated, "project(X)\n\nadd_executable(${PROJECT_NAME}\n    z.c\n    a.c\n)\n\n");
}

#[test]
fn refreshing_twice_is_refreshing_once() {
    let document = "cmake_minimum_required(VERSION 3.1)\n\nproject(p)\n\n";
    let once = refresh_target(document, strings(&["m.cpp", "a.cpp"]));
    let twice = refresh_target(&once, strings(&["a.cpp", "m.cpp"]));
    assert_eq!(once, twice);
}

#[test]
fn build_arguments_by_type() {
    assert_eq!(build_type_name(true), "Release");
    assert_eq!(build_type_name(false), "Debug");
    assert_eq!(
        configure_args(false, "/p", "/p/build"),
        vec!["-DCMAKE_BUILD_TYPE=Debug", "-DCMAKE_RUNTIME_OUTPUT_DIRECTORY=./Debug", "-B/p/build", "-H/p"]
    );
    assert_eq!(
        configure_args(true, "/p", "/p/build"),
        vec!["-DCMAKE_BUILD_TYPE=Release", "-DCMAKE_RUNTIME_OUTPUT_DIRECTORY=./Release", "-B/p/build", "-H/p"]
    );
}

#[test]
fn failed_build_ends_the_command() {
    let error = build_err(cbake::cmake::exec::ExecutionError::CMake(CMakeFailure(2)));
    assert!(matches!(error, cbake::error::ExecutionError::Failure(_)));
    let error = build_err(cbake::cmake::exec::ExecutionError::IO(IoError {
        message: "No such file or directory (os error 2)".to_string(),
        description: "entity not found".to_string(),
    }));
    match error {
        cbake::error::ExecutionError::Fatal(fatal) => {
            assert_eq!(fatal.error, "entity not found");
            assert_eq!(fatal.what, "Cannot run build command");
            assert_eq!(fatal.help, None);
        }
        _ => panic!("a fatal error was expected"),
    }
}
