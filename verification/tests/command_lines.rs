use iobitunlocker_shell_bridge::launch::{
    helper_parameters, launch_failure, missing_helper_message,
};
use iobitunlocker_shell_bridge::paths::{
    config_path_for_dir, helper_path_for_dir, parent_of, result_path_for_request,
    unlocker_dll_path_for_dir, unlocker_exe_path_for_dir, worker_dll_path_for_dir,
};
use iobitunlocker_shell_bridge::quoting::quote_windows_argument;
use iobitunlocker_shell_bridge::runtime_args::{
    find_runtime_args, parse_runtime_args, title_dir, RuntimeArgsError,
};

/// The arguments that Windows programs read from a command line.
fn arguments(line: &str) -> Vec<String> {
    let chars: Vec<char> = line.chars().collect();
    let mut found = Vec::new();
    let mut i = 0;
    while i < chars.len() {
        if chars[i] == ' ' || chars[i] == '\t' {
            i += 1;
            continue;
        }
        let mut argument = String::new();
        let mut quoted = false;
        while i < chars.len() && (quoted || (chars[i] != ' ' && chars[i] != '\t')) {
            let mut backslashes = 0;
            while i < chars.len() && chars[i] == '\\' {
                backslashes += 1;
                i += 1;
            }
            if i < chars.len() && chars[i] == '"' {
                argument.push_str(&"\\".repeat(backslashes / 2));
                if backslashes % 2 == 1 {
                    argument.push('"');
                    i += 1;
                } else if quoted && i + 1 < chars.len() && chars[i + 1] == '"' {
                    argument.push('"');
                    i += 2;
                } else {
                    quoted = !quoted;
                    i += 1;
                }
            } else if backslashes > 0 {
                argument.push_str(&"\\".repeat(backslashes));
            } else {
                argument.push(chars[i]);
                i += 1;
            }
        }
        found.push(argument);
    }
    found
}

#[test]
fn plain_arguments_are_left_alone() {
    for value in ["a", "C:\\Temp\\x.req", "a,b", "a\\b", "解锁", "a'b", "\u{a0}"] {
        assert_eq!(quote_windows_argument(value), value);
    }
}

#[test]
fn other_arguments_are_quoted() {
    assert_eq!(quote_windows_argument(""), "\"\"");
    assert_eq!(quote_windows_argument("a b"), "\"a b\"");
    assert_eq!(quote_windows_argument("a\tb"), "\"a\tb\"");
    assert_eq!(quote_windows_argument("a\nb"), "\"a\nb\"");
    assert_eq!(quote_windows_argument("a\u{b}b"), "\"a\u{b}b\"");
    assert_eq!(quote_windows_argument("C:\\"), "\"C:\\\\\"");
    assert_eq!(quote_windows_argument("C:\\a b\\"), "\"C:\\a b\\\\\"");
    assert_eq!(quote_windows_argument("a\"b"), "\"a\\\"b\"");
    assert_eq!(quote_windows_argument("a\\\\\"b"), "\"a\\\\\\\\\\\"b\"");
    assert_eq!(quote_windows_argument("\\\\x \\\\"), "\"\\\\x \\\\\\\\\"");
}

#[test]
fn quoted_arguments_read_back_as_they_were() {
    let mut values: Vec<String> = vec![String::new()];
    let mut last = values.clone();
    for _ in 0..5 {
        let mut next = Vec::new();
        for value in &last {
            for c in ['a', ' ', '\\', '"', '\t'] {
                let mut longer = value.clone();
                longer.push(c);
                next.push(longer);
            }
        }
        values.extend(next.clone());
        last = next;
    }
    for value in &values {
        let quoted = quote_windows_argument(value);
        assert_eq!(arguments(&quoted), [value.clone()]);
        assert_eq!(arguments(&format!("{} next", quoted)), [value.clone(), "next".to_string()]);
    }
}

fn strings(args: &[&str]) -> Vec<String> {
    args.iter().map(|arg| arg.to_string()).collect()
}

#[test]
fn the_helper_is_told_of_its_request() {
    assert_eq!(helper_parameters("C:\\t\\x.req"), "--request C:\\t\\x.req");
    for path in ["C:\\t\\x.req", "C:\\Users\\A B\\x.req", "", "--deploy-dir", "a \"b\\"] {
        let parsed = parse_runtime_args(&arguments(&helper_parameters(path)));
        assert!(parsed.is_ok());
        if let Ok(args) = parsed {
            assert_eq!(args.request_path, path);
            assert_eq!(args.deploy_dir, None);
            assert_eq!(args.deploy_dir_or("C:\\h"), "C:\\h");
        }
    }
}

#[test]
fn runtime_args_take_the_last_values() {
    let parsed = parse_runtime_args(&strings(&[
        "x", "--request", "a", "--deploy-dir", "d", "--request", "--request", "y", "--deploy-dir", "e",
    ]));
    assert!(parsed.is_ok());
    if let Ok(args) = parsed {
        assert_eq!(args.request_path, "--request");
        assert_eq!(args.deploy_dir, Some("e".to_string()));
        assert_eq!(args.deploy_dir_or("C:\\h"), "e");
    }
}

#[test]
fn runtime_args_can_be_incomplete() {
    let cases = [
        (vec!["--request"], RuntimeArgsError::MissingRequestValue, "missing value after --request"),
        (vec!["--deploy-dir"], RuntimeArgsError::MissingDeployDirValue, "missing value after --deploy-dir"),
        (vec!["--request", "a", "--deploy-dir"], RuntimeArgsError::MissingDeployDirValue, "missing value after --deploy-dir"),
        (vec![], RuntimeArgsError::MissingRequest, "helper expects --request <file>"),
        (vec!["--deploy-dir", "d", "z"], RuntimeArgsError::MissingRequest, "helper expects --request <file>"),
    ];
    for (args, error, message) in cases {
        let parsed = parse_runtime_args(&strings(&args));
        assert!(parsed.is_err());
        if let Err(found) = parsed {
            assert_eq!(found, error);
            assert_eq!(found.message(), message);
        }
    }
}

#[test]
fn values_are_found_where_they_stand() {
    let args = strings(&["x", "--request", "a", "--deploy-dir", "d", "--request", "--request"]);
    let found = find_runtime_args(&args).unwrap();
    assert_eq!((found.request, found.deploy_dir), (6, Some(4)));
    let found = find_runtime_args(&strings(&["--request", "a"])).unwrap();
    assert_eq!((found.request, found.deploy_dir), (1, None));
    let missing = find_runtime_args(&strings(&["--request"]));
    assert!(matches!(missing, Err(RuntimeArgsError::MissingRequestValue)));
}

#[test]
fn the_title_comes_from_the_deployment() {
    let here = Some("C:\\here".to_string());
    let named = strings(&["--request", "r", "--deploy-dir", "D:\\there"]);
    assert_eq!(title_dir(&named, here.clone()), Some("D:\\there".to_string()));
    assert_eq!(title_dir(&named, None), Some("D:\\there".to_string()));
    assert_eq!(title_dir(&strings(&["--request", "r"]), here.clone()), here);
    assert_eq!(title_dir(&strings(&["--request", "r"]), None), None);
    let incomplete = strings(&["--deploy-dir", "D:\\there"]);
    assert_eq!(title_dir(&incomplete, here.clone()), here);
}

#[test]
fn shell_errors_are_told_in_words() {
    assert_eq!(launch_failure(33), None);
    assert_eq!(launch_failure(42), None);
    assert_eq!(
        launch_failure(5).unwrap(),
        "启动提权 helper 失败：权限被拒绝，或 UAC 提权已取消 (code 5)"
    );
    assert_eq!(
        launch_failure(32).unwrap(),
        "启动提权 helper 失败：ShellExecuteW 返回了 shell 错误 (code 32)"
    );
    assert_eq!(
        launch_failure(-1).unwrap(),
        "启动提权 helper 失败：ShellExecuteW 返回了 shell 错误 (code -1)"
    );
    assert_eq!(
        launch_failure(5 - 0x1_0000_0000).unwrap(),
        "启动提权 helper 失败：权限被拒绝，或 UAC 提权已取消 (code -4294967291)"
    );
    assert_eq!(missing_helper_message("C:\\h.exe"), "未找到 helper 可执行文件：\nC:\\h.exe");
}

#[test]
fn the_files_of_a_deployment_stand_together() {
    assert_eq!(config_path_for_dir("C:\\d"), "C:\\d\\iobitunlocker_shell_bridge.ini");
    assert_eq!(helper_path_for_dir("C:\\d\\"), "C:\\d\\iobitunlocker_shell_bridge_helper.exe");
    assert_eq!(worker_dll_path_for_dir("C:/d/"), "C:/d/iobitunlocker_shell_bridge_worker.dll");
    assert_eq!(unlocker_exe_path_for_dir("C:"), "C:IObitUnlocker.exe");
    assert_eq!(unlocker_dll_path_for_dir(""), "IObitUnlocker.dll");
    assert_eq!(unlocker_exe_path_for_dir("\\\\server\\share"), "\\\\server\\share\\IObitUnlocker.exe");
    assert_eq!(unlocker_exe_path_for_dir("1:"), "1:\\IObitUnlocker.exe");
    assert_eq!(unlocker_exe_path_for_dir("x"), "x\\IObitUnlocker.exe");
}

#[test]
fn verbatim_directories_are_put_together_anew() {
    let join = |dir: &str| unlocker_dll_path_for_dir(dir);
    assert_eq!(join(r"\\?\C:\a"), r"\\?\C:\a\IObitUnlocker.dll");
    assert_eq!(join(r"\\?\C:\a\\b\"), r"\\?\C:\a\b\IObitUnlocker.dll");
    assert_eq!(join(r"\\?\C:\a/"), r"\\?\C:\a/\IObitUnlocker.dll");
    assert_eq!(join(r"\\?\C:"), r"\\?\C:\IObitUnlocker.dll");
    assert_eq!(join(r"\\?\C:\"), r"\\?\C:\IObitUnlocker.dll");
    assert_eq!(join(r"\\?\C:/foo/bar"), r"\\?\C:\foo/bar\IObitUnlocker.dll");
    assert_eq!(join(r"\\?\C:\.\x\.."), r"\\?\C:\.\x\..\IObitUnlocker.dll");
    assert_eq!(join(r"\\?\UNC\server\share"), r"\\?\UNC\server\share\IObitUnlocker.dll");
    assert_eq!(join(r"\\?\UNC\server\share\\d"), r"\\?\UNC\server\share\d\IObitUnlocker.dll");
    assert_eq!(join(r"\\?\UNC\server\"), r"\\?\UNC\server\IObitUnlocker.dll");
    assert_eq!(join(r"\\?\UNC\server"), r"\\?\UNC\server\IObitUnlocker.dll");
    assert_eq!(join(r"\\?\Volume{1}\\x"), r"\\?\Volume{1}\x\IObitUnlocker.dll");
    assert_eq!(join(r"\\?\C:x\\y"), r"\\?\C:x\y\IObitUnlocker.dll");
    assert_eq!(join(r"\\?\"), r"\\?\\IObitUnlocker.dll");
    assert_eq!(join(r"//?/C:\a\\b"), r"//?/C:\a\\b\IObitUnlocker.dll");
    assert_eq!(join(r"\\.\C:\a\\b"), r"\\.\C:\a\\b\IObitUnlocker.dll");
}

#[test]
fn files_stand_in_the_directory_of_their_path() {
    let parent = |path: &str| parent_of(path);
    let cases = [
        (r"C:\d\x.exe", Some(r"C:\d")),
        (r"C:\x.exe", Some(r"C:\")),
        (r"C:x.exe", Some("C:")),
        (r"C:\", None),
        ("C:", None),
        ("C:.", None),
        (r"C:.\x", Some("C:.")),
        ("", None),
        ("x.exe", Some("")),
        (".", Some("")),
        ("..", Some("")),
        (r".\x", Some(".")),
        (r"\x", Some(r"\")),
        (r"\", None),
        (r"a/b\c", Some("a/b")),
        (r"a\\b\\", Some("a")),
        (r"a\.\b\.", Some("a")),
        (r"a\..\b", Some(r"a\..")),
        (r"\\server\share\x", Some(r"\\server\share\")),
        (r"\\server\share", None),
        (r"//server/share/d/x", Some("//server/share/d")),
        (r"\\server\\x", Some(r"\\server")),
        (r"\\.\COM1\x", Some(r"\\.\COM1\")),
        (r"\\.\COM1", None),
        (r"\\?\C:\d\x", Some(r"\\?\C:\d")),
        (r"\\?\C:\x", Some(r"\\?\C:\")),
        (r"\\?\C:\a/b", Some(r"\\?\C:\")),
        (r"\\?\C:\a\.\x", Some(r"\\?\C:\a\.")),
        (r"\\?\UNC\server\share\x", Some(r"\\?\UNC\server\share\")),
        (r"\\?\C:x", None),
    ];
    for (path, dir) in cases {
        assert_eq!(parent(path).as_deref(), dir, "{}", path);
    }
    for dir in [r"C:\d", r"C:\", "C:", "", ".", r"\\server\share\", r"\\?\C:\d", r"d\e"] {
        assert_eq!(parent(&helper_path_for_dir(dir)).as_deref(), Some(dir));
    }
}

#[test]
fn files_beside_a_file_stand_in_its_directory() {
    for path in [r"C:\d\x.dll", r"C:\x.dll", "C:x.dll", "x.dll", r".\x", r"\x", r"a//b\.\\x", r"\\s\t\x"] {
        let dir = parent_of(path).unwrap();
        assert_eq!(parent_of(&worker_dll_path_for_dir(&dir)), Some(dir.clone()));
        assert!(path.starts_with(&dir) && dir.len() < path.len());
    }
}

#[test]
fn files_of_one_directory_have_different_paths() {
    let paths = [
        config_path_for_dir("C:\\d"),
        helper_path_for_dir("C:\\d"),
        worker_dll_path_for_dir("C:\\d"),
        unlocker_exe_path_for_dir("C:\\d"),
        unlocker_dll_path_for_dir("C:\\d"),
    ];
    for i in 0..paths.len() {
        for j in 0..i {
            assert_ne!(paths[i], paths[j]);
        }
    }
}

#[test]
fn a_result_stands_beside_its_request() {
    assert_eq!(result_path_for_request("C:\\t\\x.req"), "C:\\t\\x.req.result");
}
