use anarchy_agent::executor::config::Config as ExecutorConfig;
use anarchy_agent::executor::error::Error as ExecutorError;
use anarchy_agent::executor::parser::{parse, Parser};
use anarchy_agent::executor::sandbox::Sandbox as ExecutorSandbox;
use anarchy_agent::executor::symbols::{check_arguments, network_response, parse_timeout};
use anarchy_agent::system::config::Config;
use anarchy_agent::system::error::Error;
use anarchy_agent::system::file::{
    copy_file, file_exists, list_directory, move_file, read_file, remove_path, write_file,
};
use anarchy_agent::system::sandbox::{is_path_within, Sandbox};
use anarchy_agent::system::shell::{execute, get_env_var, get_os_info};

#[test]
fn parser_refuses_blank_code() {
    for code in ["", "  \n\t "] {
        match parse(code) {
            Err(ExecutorError::CodeParsingError(m)) => assert_eq!(m, "Empty code"),
            other => panic!("unexpected: {:?}", other),
        }
    }
}

#[test]
fn parser_refuses_code_without_a_definition() {
    match Parser::new(ExecutorConfig::default()).parse("print(1)") {
        Err(ExecutorError::CodeParsingError(m)) => {
            assert_eq!(m, "Code does not contain any function or library definitions")
        }
        other => panic!("unexpected: {:?}", other),
    }
}

#[test]
fn parser_keeps_the_code_as_given() {
    assert_eq!(parse(" ƒmain() {} ").unwrap().raw_code, " ƒmain() {} ");
    assert_eq!(parse("λlib").unwrap().raw_code, "λlib");
}

#[test]
fn executor_sandbox_checks_symbols_and_reports() {
    let config = ExecutorConfig::new(1, 2, true, false, true, "dir");
    assert_eq!(config.input_directory, "dir");
    assert!(!config.allow_shell);
    let sandbox = ExecutorSandbox::new(&config);
    assert!(sandbox.sandbox_enabled());
    assert!(sandbox.register_symbol("📂").is_ok());
    match sandbox.register_symbol("") {
        Err(ExecutorError::SymbolRegistrationError(m)) => assert_eq!(m, "Empty symbol"),
        other => panic!("unexpected: {:?}", other),
    }
    let code = parse("ƒmain() {}").unwrap();
    assert_eq!(sandbox.execute(&code), "Executed code:\nƒmain() {}\n\nResult: Task completed successfully");
    let d = ExecutorConfig::default();
    assert_eq!(d.max_execution_time_ms, 5000);
    assert_eq!(d.max_memory_bytes, 100 * 1024 * 1024);
    assert_eq!(d.input_directory, "./input_files");
}

#[test]
fn paths_are_allowed_by_prefix() {
    assert!(is_path_within("./workspace/a.txt", "./workspace"));
    assert!(is_path_within("./workspace", "./workspace"));
    assert!(!is_path_within("./work", "./workspace"));
    assert!(is_path_within("anything", ""));
    let sandbox = Sandbox::new(&Config::default());
    assert!(sandbox.check_path_allowed("./workspace/x").is_ok());
    match sandbox.check_path_allowed("/etc/\"passwd\"") {
        Err(Error::PathNotAllowed(m)) => {
            assert_eq!(m, "Path \"/etc/\\\"passwd\\\"\" is not within any allowed paths")
        }
        other => panic!("unexpected: {:?}", other),
    }
    let open = Sandbox::new(&Config { sandbox_enabled: false, ..Config::default() });
    assert!(open.check_path_allowed("/etc/passwd").is_ok());
}

#[test]
fn commands_are_allowed_by_name() {
    let sandbox = Sandbox::new(&Config::default());
    assert!(sandbox.check_command_allowed("  ls -la /tmp").is_ok());
    assert!(sandbox.check_command_allowed("echo").is_ok());
    match sandbox.check_command_allowed("rm -rf /") {
        Err(Error::CommandNotAllowed(m)) => assert_eq!(m, "Command 'rm' is not in the allowed list"),
        other => panic!("unexpected: {:?}", other),
    }
    match sandbox.check_command_allowed("   ") {
        Err(Error::CommandNotAllowed(m)) => assert_eq!(m, "Command '' is not in the allowed list"),
        other => panic!("unexpected: {:?}", other),
    }
    let open = Sandbox::new(&Config { sandbox_enabled: false, ..Config::default() });
    assert!(open.check_command_allowed("rm -rf /").is_ok());
}

#[test]
fn shell_runs_allowed_commands_only() {
    let sandbox = Sandbox::new(&Config::default());
    let out = execute("ls -la", &sandbox).unwrap();
    assert_eq!(out.stdout, "Output of command: ls -la");
    assert_eq!(out.stderr, "");
    assert_eq!(out.code, 0);
    assert!(matches!(execute("rm x", &sandbox), Err(Error::CommandNotAllowed(_))));
    assert_eq!(get_os_info().unwrap(), "Linux 5.15.0");
}

#[test]
fn environment_is_closed_inside_the_sandbox() {
    let sandbox = Sandbox::new(&Config::default());
    match get_env_var("HOME", &sandbox) {
        Err(Error::PermissionDenied(m)) => {
            assert_eq!(m, "Access to environment variable HOME is not allowed in sandbox mode")
        }
        other => panic!("unexpected: {:?}", other),
    }
    let open = Sandbox::new(&Config { sandbox_enabled: false, ..Config::default() });
    assert_eq!(get_env_var("HOME", &open).unwrap(), "Value of HOME");
}

#[test]
fn file_operations_ask_the_sandbox_first() {
    let sandbox = Sandbox::new(&Config::default());
    assert_eq!(
        list_directory("./workspace/d", "d", &sandbox).unwrap(),
        vec!["d/file1.txt", "d/file2.txt", "d/subdir"]
    );
    assert_eq!(read_file("./workspace/f", "f", &sandbox).unwrap(), "Contents of file: f");
    assert!(file_exists("./workspace/f", &sandbox).unwrap());
    assert!(matches!(list_directory("/d", "d", &sandbox), Err(Error::PathNotAllowed(_))));
    assert!(matches!(read_file("/f", "f", &sandbox), Err(Error::PathNotAllowed(_))));
    assert!(matches!(file_exists("/f", &sandbox), Err(Error::PathNotAllowed(_))));
}

#[test]
fn error_messages_of_the_other_components() {
    assert_eq!(Error::TimeoutError("t".to_string()).message(), "Timeout error: t");
    assert_eq!(ExecutorError::InputError("i".to_string()).message(), "Input error: i");
    assert_eq!(
        anarchy_agent::browser::error::Error::JavaScriptError("j".to_string()).message(),
        "JavaScript execution error: j"
    );
    assert_eq!(
        anarchy_agent::agent::error::Error::ConfigError("c".to_string()).message(),
        "Configuration error: c"
    );
}

#[test]
fn handlers_check_the_number_of_their_arguments() {
    assert!(check_arguments(1, 1, "m").is_ok());
    match check_arguments(2, 1, "📂 requires exactly one argument (path)") {
        Err(ExecutorError::SymbolRegistrationError(m)) => assert_eq!(m, "📂 requires exactly one argument (path)"),
        other => panic!("unexpected: {:?}", other),
    }
    assert!(check_arguments(0, 2, "m").is_err());
}

#[test]
fn timeouts_are_unsigned_decimal_numbers() {
    assert_eq!(parse_timeout("30000").unwrap(), 30000);
    assert_eq!(parse_timeout("0").unwrap(), 0);
    assert_eq!(parse_timeout("+7").unwrap(), 7);
    assert_eq!(parse_timeout("007").unwrap(), 7);
    assert_eq!(parse_timeout("18446744073709551615").unwrap(), u64::MAX);
    for bad in ["", "+", "-1", " 1", "1 ", "1.5", "abc", "18446744073709551616", "99999999999999999999", "++1", "१"] {
        match parse_timeout(bad) {
            Err(ExecutorError::SymbolRegistrationError(m)) => assert_eq!(m, "Invalid timeout value"),
            other => panic!("unexpected for {:?}: {:?}", bad, other),
        }
    }
}

#[test]
fn timeouts_agree_with_the_standard_library() {
    for text in ["12", "+12", "-12", "", "+", "1e3", "0000", "18446744073709551615", "18446744073709551616", "٣"] {
        assert_eq!(parse_timeout(text).ok(), text.parse::<u64>().ok());
    }
}

#[test]
fn network_answers_with_the_content() {
    assert_eq!(network_response("http://x"), "{\"s\":200,\"b\":\"Content from http://x\"}");
}

#[test]
fn changes_to_files_ask_the_sandbox_about_every_path() {
    let sandbox = Sandbox::new(&Config::default());
    assert!(write_file("./workspace/a", &sandbox).is_ok());
    assert!(remove_path("./workspace/a", &sandbox).is_ok());
    assert!(matches!(write_file("/a", &sandbox), Err(Error::PathNotAllowed(_))));
    assert!(matches!(remove_path("/a", &sandbox), Err(Error::PathNotAllowed(_))));
    assert!(copy_file("./workspace/a", "./workspace/b", &sandbox).is_ok());
    assert!(move_file("./workspace/a", "./workspace/b", &sandbox).is_ok());
    match copy_file("/src", "/dst", &sandbox) {
        Err(Error::PathNotAllowed(m)) => assert_eq!(m, "Path \"/src\" is not within any allowed paths"),
        other => panic!("unexpected: {:?}", other),
    }
    match move_file("./workspace/a", "/dst", &sandbox) {
        Err(Error::PathNotAllowed(m)) => assert_eq!(m, "Path \"/dst\" is not within any allowed paths"),
        other => panic!("unexpected: {:?}", other),
    }
    let open = Sandbox::new(&Config { sandbox_enabled: false, ..Config::default() });
    assert!(copy_file("/src", "/dst", &open).is_ok());
}
