use cyrene_compass::command::{
    action_route, elevated_command, elevated_file_plan, elevated_file_plan_for, elevated_target,
    env_var_refs, expand_env_vars, missing_program_message, names_a_path, plan_command_line,
    program_search_dirs, shell_failure_message, split_command_line, split_path_list, ActionRoute,
    CommandPlan, ElevatedFile, SearchDir, ShellFailure,
};
use cyrene_compass::text::decimal_string;

fn env(pairs: &[(&str, Option<&str>)]) -> Vec<(String, Option<String>)> {
    pairs.iter().map(|(n, v)| (n.to_string(), v.map(|x| x.to_string()))).collect()
}

#[test]
fn splits_bare_command() {
    let (program, args) = split_command_line("shutdown -s -t 0", &Vec::new());
    assert_eq!(program, "shutdown");
    assert_eq!(args, vec!["-s", "-t", "0"]);
}

#[test]
fn splits_quoted_program_with_spaces() {
    let (program, args) = split_command_line(r#""C:\Program Files\App\run.exe" --fast"#, &Vec::new());
    assert_eq!(program, r"C:\Program Files\App\run.exe");
    assert_eq!(args, vec!["--fast"]);
}

#[test]
fn expands_percent_env_vars() {
    let input = "%SystemRoot%\\System32\\shutdown.exe";
    assert_eq!(env_var_refs(input), vec!["SystemRoot"]);
    let values = env(&[("SystemRoot", Some(r"C:\Windows"))]);
    assert_eq!(expand_env_vars(input, &values), r"C:\Windows\System32\shutdown.exe");
}

#[test]
fn unset_variables_and_stray_percent_signs_are_kept() {
    let values = env(&[("A", Some("x")), ("B", None)]);
    assert_eq!(expand_env_vars("%A%-%B%-%%-100%", &values), "x-%B%-%%-100%");
    assert_eq!(env_var_refs("%A%-%B%-%%-100%"), vec!["A", "B", "-100"]);
    assert_eq!(expand_env_vars("50% off", &values), "50% off");
    assert_eq!(expand_env_vars("%A%%A%", &values), "xx");
}

#[test]
fn splitting_handles_tabs_quotes_and_blank_input() {
    let (p, a) = split_command_line("  run\t\"a b\"  c\"d\"  ", &Vec::new());
    assert_eq!(p, "run");
    assert_eq!(a, vec!["a b", "cd"]);
    let (p, a) = split_command_line("   ", &Vec::new());
    assert_eq!(p, "");
    assert!(a.is_empty());
    let (p, a) = split_command_line("%TOOL% --x", &env(&[("TOOL", Some("my tool"))]));
    assert_eq!(p, "my");
    assert_eq!(a, vec!["tool", "--x"]);
}

#[test]
fn plans_follow_the_program_extension() {
    let none: Vec<(String, Option<String>)> = Vec::new();
    assert!(matches!(plan_command_line("   ", &none), CommandPlan::Nothing));
    assert!(matches!(plan_command_line("\"\"", &none), CommandPlan::Unparsable));
    match plan_command_line("  C:\\tools\\Build.BAT release ", &none) {
        CommandPlan::Batch { command_line } => assert_eq!(command_line, "C:\\tools\\Build.BAT release"),
        other => panic!("unexpected {:?}", other),
    }
    match plan_command_line("setup.ps1 -Force", &none) {
        CommandPlan::Script { script, args } => {
            assert_eq!(script, "setup.ps1");
            assert_eq!(args, vec!["-Force"]);
        }
        other => panic!("unexpected {:?}", other),
    }
    match plan_command_line("notepad readme.txt", &none) {
        CommandPlan::Program { program, args } => {
            assert_eq!(program, "notepad");
            assert_eq!(args, vec!["readme.txt"]);
        }
        other => panic!("unexpected {:?}", other),
    }
    let values = env(&[("X", Some("job.cmd"))]);
    assert!(matches!(plan_command_line("%X%", &values), CommandPlan::Batch { .. }));
}

#[test]
fn elevated_launches() {
    assert_eq!(elevated_target("  \"C:\\a b\\x.bat\"  "), "C:\\a b\\x.bat");
    match elevated_file_plan("C:\\a b\\x.bat") {
        ElevatedFile::Batch { params } => assert_eq!(params, "/S /C \"C:\\a b\\x.bat\""),
        other => panic!("unexpected {:?}", other),
    }
    match elevated_file_plan_for("a\"b.cmd", Some("CMD".to_string())) {
        ElevatedFile::Batch { params } => assert_eq!(params, "/S /C \"a\"\"b.cmd\""),
        other => panic!("unexpected {:?}", other),
    }
    match elevated_file_plan("D:\\s.ps1") {
        ElevatedFile::Script { params } => {
            assert_eq!(params, "-NoProfile -ExecutionPolicy Bypass -File \"D:\\s.ps1\"")
        }
        other => panic!("unexpected {:?}", other),
    }
    assert!(matches!(elevated_file_plan("D:\\app.exe"), ElevatedFile::Direct));
    assert!(matches!(elevated_file_plan_for("README", None), ElevatedFile::Direct));
    assert_eq!(
        elevated_command("  regedit /s  a.reg ", &Vec::new()),
        Some(("regedit".to_string(), "/s a.reg".to_string()))
    );
    assert_eq!(elevated_command("\"\"", &Vec::new()), None);
    assert_eq!(missing_program_message("foo"), "找不到程序 foo，管理员模式需要完整路径");
}

#[test]
fn actions_are_routed_by_their_options() {
    assert!(matches!(action_route(" \t ", true, true), ActionRoute::Nothing));
    match action_route("echo \"hi\"", true, true) {
        ActionRoute::ElevatedScript { params } => {
            assert_eq!(params, "-NoProfile -ExecutionPolicy Bypass -Command \"echo \\\"hi\\\"\"")
        }
        other => panic!("unexpected {:?}", other),
    }
    assert!(matches!(action_route("Get-Date", false, true), ActionRoute::Script));
    assert!(matches!(action_route("cmd", true, false), ActionRoute::Elevated));
    assert!(matches!(action_route("https://example.com", false, false), ActionRoute::Open));
}

#[test]
fn program_search_helpers() {
    assert!(names_a_path("C:\\x\\y.exe"));
    assert!(names_a_path("./run"));
    assert!(!names_a_path("notepad.exe"));
    assert_eq!(split_path_list(";C:\\Windows;;D:\\bin;"), vec!["C:\\Windows", "D:\\bin"]);
    assert!(split_path_list("").is_empty());
}

#[test]
fn quoted_program_and_arguments_round_trip() {
    let (program, args) = split_command_line(r#""C:\My Tools\run it.exe" -a b:c /d"#, &Vec::new());
    assert_eq!(program, r"C:\My Tools\run it.exe");
    assert_eq!(args, vec!["-a", "b:c", "/d"]);
    let (program, args) = split_command_line(r#""C:\My Tools\run it.exe" "#, &Vec::new());
    assert_eq!(program, r"C:\My Tools\run it.exe");
    assert!(args.is_empty());
}

#[test]
fn program_search_order() {
    let dirs = program_search_dirs("notepad", true, Some(";C:\\A;;C:\\B;".to_string()), Some("C:\\Windows".to_string()));
    assert_eq!(dirs.len(), 5);
    assert!(matches!(&dirs[0], SearchDir::Current));
    assert!(matches!(&dirs[1], SearchDir::Dir(d) if d == "C:\\A"));
    assert!(matches!(&dirs[2], SearchDir::Dir(d) if d == "C:\\B"));
    assert!(matches!(&dirs[3], SearchDir::Under(d, c) if d == "C:\\Windows" && c == "System32"));
    assert!(matches!(&dirs[4], SearchDir::Dir(d) if d == "C:\\Windows"));
    let dirs = program_search_dirs("tool.exe", false, None, None);
    assert!(dirs.is_empty());
    let dirs = program_search_dirs("bin\\tool.exe", true, Some("C:\\A".to_string()), Some("C:\\W".to_string()));
    assert!(dirs.is_empty());
    let dirs = program_search_dirs("tool", false, Some("C:\\A".to_string()), None);
    assert_eq!(dirs.len(), 1);
    assert!(matches!(&dirs[0], SearchDir::Dir(d) if d == "C:\\A"));
}

#[test]
fn shell_failures_are_reported_with_their_code() {
    assert_eq!(shell_failure_message(ShellFailure::Elevated(5)), "管理员启动失败：5");
    assert_eq!(shell_failure_message(ShellFailure::ElevatedScript(2)), "管理员 PowerShell 启动失败：2");
    assert_eq!(shell_failure_message(ShellFailure::UpdateInstaller(31)), "无法启动更新安装程序：31");
    assert_eq!(shell_failure_message(ShellFailure::ExternalLink(0)), "无法打开外部链接：0");
    assert_eq!(shell_failure_message(ShellFailure::Uac(-1)), "UAC 启动失败：-1");
    assert_eq!(
        shell_failure_message(ShellFailure::OpenThenCommand(2, "无法解析命令".to_string())),
        "无法打开文件或 URI：2；按命令行执行也失败：无法解析命令"
    );
}

#[test]
fn decimal_formatting_matches_display() {
    for n in [0i64, 7, 10, 32, 1234567890, -5, -100, i64::MAX, i64::MIN] {
        assert_eq!(decimal_string(n), n.to_string());
    }
}
