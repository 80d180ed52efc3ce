use cbake::cmake::Version;
use cbake::cmake::generator::Generator;
use cbake::cmake::generator::add_executable;
use cbake::cmake::generator::comment;
use cbake::cmake::generator::default_build_type;
use cbake::cmake::generator::from_version;
use cbake::cmake::generator::include_dirs;
use cbake::cmake::generator::min_ver;
use cbake::cmake::generator::project;
use cbake::cmake::generator::set_var;

fn strings(items: &[&str]) -> Vec<String> {
    items.iter().map(|s| s.to_string()).collect()
}

#[test]
fn minimum_version_line() {
    assert_eq!(min_ver(&Version::new(2, 8)), "cmake_minimum_required(VERSION 2.8)\n\n");
    assert_eq!(min_ver(&Version::with_revision(3, 16, 3)), "cmake_minimum_required(VERSION 3.16.3)\n\n");
    assert_eq!(min_ver(&Version::with_revision(3, 16, 0)), "cmake_minimum_required(VERSION 3.16)\n\n");
}

#[test]
fn variable_assignment() {
    assert_eq!(set_var("CMAKE_CXX_STANDARD", "11"), "set(CMAKE_CXX_STANDARD 11)\n");
    assert_eq!(set_var("", ""), "set( )\n");
}

#[test]
fn project_declaration() {
    assert_eq!(project("demo"), "project(demo)\n\n");
}

#[test]
fn comment_line() {
    assert_eq!(comment(" note"), "# note\n");
    assert_eq!(comment(""), "#\n");
}

#[test]
fn default_build_type_guard() {
    assert_eq!(
        default_build_type("Debug"),
        "\nif(NOT CMAKE_BUILD_TYPE) \nset(CMAKE_BUILD_TYPE, \"Debug\")\nendif()\n\n"
    );
}

#[test]
fn include_directory_block() {
    assert_eq!(include_dirs(&strings(&["include"])), "\ninclude_directories(\n    include\n)\n\n");
    assert_eq!(
        include_dirs(&strings(&["include", "third_party/inc"])),
        "\ninclude_directories(\n    include\n    third_party/inc\n)\n\n"
    );
    assert_eq!(include_dirs(&strings(&[])), "\ninclude_directories(\n    \n)\n\n");
}

#[test]
fn target_declaration() {
    assert_eq!(
        add_executable(&strings(&["a.cpp", "b.cpp"])),
        "\nadd_executable(${PROJECT_NAME}\n    a.cpp\n    b.cpp\n)\n\n"
    );
    assert_eq!(add_executable(&strings(&["main.cpp"])), "\nadd_executable(${PROJECT_NAME}\n    main.cpp\n)\n\n");
    assert_eq!(add_executable(&strings(&[])), "\nadd_executable(${PROJECT_NAME}\n    \n)\n\n");
}

#[test]
fn tier_is_selected_at_three_zero() {
    assert_eq!(from_version(Version::new(2, 8)), Generator::CMake_2_8);
    assert_eq!(from_version(Version::with_revision(2, 255, 255)), Generator::CMake_2_8);
    assert_eq!(from_version(Version::new(0, 0)), Generator::CMake_2_8);
    assert_eq!(from_version(Version::new(3, 0)), Generator::CMake_3_x);
    assert_eq!(from_version(Version::with_revision(3, 0, 0)), Generator::CMake_3_x);
    assert_eq!(from_version(Version { major: 3, minor: 0, revision: Some(0) }), Generator::CMake_3_x);
    assert_eq!(from_version(Version::with_revision(3, 0, 1)), Generator::CMake_3_x);
    assert_eq!(from_version(Version::new(3, 16)), Generator::CMake_3_x);
    assert_eq!(from_version(Version::new(255, 0)), Generator::CMake_3_x);
}

#[test]
fn tiers_ask_for_their_minimum_version() {
    assert_eq!(Generator::CMake_2_8.version(), Version::new(2, 8));
    assert_eq!(Generator::CMake_3_x.version(), Version::new(3, 1));
    assert_eq!(Generator::CMake_2_8.min_ver(), "cmake_minimum_required(VERSION 2.8)\n\n");
    assert_eq!(Generator::CMake_3_x.min_ver(), "cmake_minimum_required(VERSION 3.1)\n\n");
}
