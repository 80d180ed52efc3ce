use cbake::cmake::Builder;
use cbake::cmake::Version;
use cbake::cmake::generator::Generator;
use cbake::cmake::generator::from_version;

const WARNING: &str = "#-------- Warning: This section will be overwritten by cbake utility. Don't change it manually if you will use it --------\n";
const CLOSING: &str = "#--------------------------------------------------------------------------------------------------------------------------\n";

fn strings(items: &[&str]) -> Vec<String> {
    items.iter().map(|s| s.to_string()).collect()
}

#[test]
fn bare_document() {
    let text = Builder::new("demo".to_string(), Generator::CMake_3_x).build();
    assert_eq!(text, "cmake_minimum_required(VERSION 3.1)\n\nproject(demo)\n\n");
    let text = Builder::new("demo".to_string(), Generator::CMake_2_8).build();
    assert_eq!(text, "cmake_minimum_required(VERSION 2.8)\n\nproject(demo)\n\n");
}

#[test]
fn full_document_in_fixed_order() {
    let text = Builder::new("demo".to_string(), from_version(Version::new(3, 16)))
        .sources(strings(&["main.cpp"]))
        .include_dirs(strings(&["include"]))
        .cpp_standard(17)
        .default_build_type("Release".to_string())
        .sources(strings(&["util.cpp", "main.cpp"]))
        .include_dirs(strings(&["vendor"]))
        .build();
    let expected = String::new()
        + "cmake_minimum_required(VERSION 3.1)\n\n"
        + "project(demo)\n\n"
        + "\nif(NOT CMAKE_BUILD_TYPE) \nset(CMAKE_BUILD_TYPE, \"Release\")\nendif()\n\n"
        + "set(CMAKE_CXX_STANDARD 17)\n"
        + "\ninclude_directories(\n    include\n    vendor\n)\n\n"
        + WARNING
        + "\nadd_executable(${PROJECT_NAME}\n    main.cpp\n    util.cpp\n    main.cpp\n)\n\n"
        + CLOSING;
    assert_eq!(text, expected);
}

#[test]
fn new_project_document_of_the_tool() {
    let text = Builder::new("hello".to_string(), from_version(Version::with_revision(2, 8, 12)))
        .cpp_standard(11)
        .sources(strings(&["./main.cpp"]))
        .build();
    let expected = String::new()
        + "cmake_minimum_required(VERSION 2.8)\n\n"
        + "project(hello)\n\n"
        + "set(CMAKE_CXX_STANDARD 11)\n"
        + WARNING
        + "\nadd_executable(${PROJECT_NAME}\n    ./main.cpp\n)\n\n"
        + CLOSING;
    assert_eq!(text, expected);
}

#[test]
fn later_setting_replaces_the_earlier() {
    let text = Builder::new("p".to_string(), Generator::CMake_3_x)
        .cpp_standard(11)
        .cpp_standard(255)
        .default_build_type("Debug".to_string())
        .default_build_type("Release".to_string())
        .build();
    assert_eq!(
        text,
        "cmake_minimum_required(VERSION 3.1)\n\nproject(p)\n\n\nif(NOT CMAKE_BUILD_TYPE) \nset(CMAKE_BUILD_TYPE, \"Release\")\nendif()\n\nset(CMAKE_CXX_STANDARD 255)\n"
    );
}

#[test]
fn building_twice_gives_the_same_bytes() {
    let make = || {
        Builder::new("demo".to_string(), Generator::CMake_3_x)
            .cpp_standard(14)
            .default_build_type("Debug".to_string())
            .include_dirs(strings(&["a", "b"]))
            .sources(strings(&["x.cpp", "y.cpp"]))
            .build()
    };
    let first = make();
    let second = make();
    assert_eq!(first.as_bytes(), second.as_bytes());
}

#[test]
fn omitted_settings_leave_no_fragment() {
    let text = Builder::new("demo".to_string(), Generator::CMake_3_x)
        .include_dirs(strings(&["inc"]))
        .sources(strings(&["main.cpp"]))
        .build();
    assert!(!text.contains("CMAKE_BUILD_TYPE"));
    assert!(!text.contains("if("));
    assert!(!text.contains("if(NOT"));
    assert!(!text.contains("endif"));
    assert!(!text.contains("endif()"));
    assert!(!text.contains("CMAKE_"));
    assert!(!text.contains("CMAKE_CXX_STANDARD"));
    assert!(!text.contains("set("));
    let expected = String::new()
        + "cmake_minimum_required(VERSION 3.1)\n\n"
        + "project(demo)\n\n"
        + "\ninclude_directories(\n    inc\n)\n\n"
        + WARNING
        + "\nadd_executable(${PROJECT_NAME}\n    main.cpp\n)\n\n"
        + CLOSING;
    assert_eq!(text, expected);
}

#[test]
fn empty_lists_leave_no_section() {
    let text = Builder::new("demo".to_string(), Generator::CMake_3_x)
        .include_dirs(Vec::new())
        .sources(Vec::new())
        .build();
    assert_eq!(text, "cmake_minimum_required(VERSION 3.1)\n\nproject(demo)\n\n");
    assert!(!text.contains("include_directories"));
    assert!(!text.contains("add_executable"));
    assert!(!text.contains('#'));
}

#[test]
fn duplicates_are_kept() {
    let text = Builder::new("demo".to_string(), Generator::CMake_3_x).sources(strings(&["a.cpp", "a.cpp"])).build();
    assert!(text.contains("\nadd_executable(${PROJECT_NAME}\n    a.cpp\n    a.cpp\n)\n\n"));
}

#[test]
fn standard_alone_ends_with_one_newline() {
    let text = Builder::new("demo".to_string(), from_version(Version::new(3, 10))).cpp_standard(11).build();
    assert_eq!(text, "cmake_minimum_required(VERSION 3.1)\n\nproject(demo)\n\nset(CMAKE_CXX_STANDARD 11)\n");
    assert_eq!(text.chars().count(), 79);
}
