use cbake::error::ExecutionError;
use cbake::error::Failure;
use cbake::error::FatalError;
use cbake::error::cmake_read_err;
use cbake::error::cmake_write_err;
use cbake::error::collect_sources_err;
use cbake::error::dir_access_err;
use cbake::error::init_err;
use cbake::error::layout_gen_err;
use cbake::error::version_err;
use cbake::report::building_line;
use cbake::report::creating_line;
use cbake::report::progress_line;
use cbake::report::running_line;
use cbake::report::success_line;

#[test]
fn fatal_error_without_help() {
    let error = FatalError::new("entity not found".to_string(), "Cannot write CMakeLists.txt");
    assert_eq!(error.error, "entity not found");
    assert_eq!(error.what, "Cannot write CMakeLists.txt");
    assert_eq!(error.help, None);
    assert_eq!(error.description(), "entity not found");
    assert_eq!(error.to_string(), "  \u{1b}[1;31mError:\u{1b}[0m Cannot write CMakeLists.txt(entity not found) \n");
}

#[test]
fn fatal_error_with_help() {
    let error = FatalError::with_help("cause".to_string(), "What", "Do this");
    assert_eq!(error.help, Some("Do this".to_string()));
    assert_eq!(
        error.to_string(),
        "  \u{1b}[1;31mError:\u{1b}[0m What(cause) \n  \u{1b}[1;33mHelp:\u{1b}[0m Do this\n"
    );
}

#[test]
fn failure_report() {
    assert_eq!(Failure.to_string(), "  \u{1b}[1;31mFailure\u{1b}[0m\n");
    assert_eq!(Failure.description(), "Failure");
}

#[test]
fn execution_error_reports_its_variant() {
    let fatal = ExecutionError::from(FatalError::new("c".to_string(), "w"));
    assert_eq!(fatal.to_string(), "  \u{1b}[1;31mError:\u{1b}[0m w(c) \n");
    assert_eq!(fatal.description(), "c");
    assert!(matches!(fatal, ExecutionError::Fatal(_)));
    let failure = ExecutionError::from(Failure);
    assert_eq!(failure.to_string(), "  \u{1b}[1;31mFailure\u{1b}[0m\n");
    assert_eq!(failure.description(), "Failure");
    assert!(matches!(failure, ExecutionError::Failure(_)));
}

#[test]
fn errors_of_the_steps() {
    let error = version_err("x".to_string());
    assert_eq!(error.error, "x");
    assert_eq!(error.what, "Cannot obtain a cmake version");
    assert_eq!(
        error.help,
        Some("Make sure cmake is installed and present in PATH environment variable. Run `cmake --version` to verify cmake installation".to_string())
    );
    let error = init_err("x".to_string());
    assert_eq!((error.error.as_str(), error.what.as_str(), error.help), ("x", "Cannot initialize cmake build directory", None));
    let error = layout_gen_err("x".to_string());
    assert_eq!((error.error.as_str(), error.what.as_str(), error.help), ("x", "Cannot generate a project layout", None));
    let error = collect_sources_err("x".to_string());
    assert_eq!((error.error.as_str(), error.what.as_str(), error.help), ("x", "Cannot collect project sources", None));
    let error = dir_access_err("x".to_string());
    assert_eq!((error.error.as_str(), error.what.as_str(), error.help), ("x", "Cannot access project directory", None));
    let error = cmake_write_err("x".to_string());
    assert_eq!((error.error.as_str(), error.what.as_str(), error.help), ("x", "Cannot write CMakeLists.txt", None));
    let error = cmake_read_err("x".to_string());
    assert_eq!(error.error, "x");
    assert_eq!(error.what, "Cannot read CMakeLists.txt");
    assert_eq!(error.help, Some("Make sure you are located within a project directory".to_string()));
}

#[test]
fn console_lines() {
    assert_eq!(success_line(), "  \u{1b}[1;32mSuccess\u{1b}[0m");
    assert_eq!(creating_line("demo"), "  \u{1b}[1;32mCreating\u{1b}[0m \u{1b}[1;37mdemo\u{1b}[0m");
    assert_eq!(building_line("demo"), "  \u{1b}[1;32mBuilding\u{1b}[0m \u{1b}[1;37mdemo\u{1b}[0m ");
    assert_eq!(running_line("demo"), "  \u{1b}[1;32mRunning\u{1b}[0m \u{1b}[1;37mdemo\u{1b}[0m");
    assert_eq!(progress_line("", ""), "  \u{1b}[1;32m\u{1b}[0m \u{1b}[1;37m\u{1b}[0m");
}
