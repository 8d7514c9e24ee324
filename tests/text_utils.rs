use magg::errors::{error_execute_command, error_obtain_output, error_spawn_command, MaggError};
use magg::paths::canonicalize;
use magg::text::{get_line_number, replace_first_in, strip_quotes};

#[test]
fn line_number_of_first_matching_line() {
    let content = "[workspace]\nalpha = { path = \"./a\" }\nbeta = { path = \"./b\" }\n";
    assert_eq!(get_line_number(content, "beta = { path = \"./b\""), Some(3));
    assert_eq!(get_line_number(content, "alpha"), Some(2));
    assert_eq!(get_line_number(content, "[workspace]"), Some(1));
}

#[test]
fn line_number_missing_prefix() {
    assert_eq!(get_line_number("a = 1\nb = 2\n", "c"), None);
    assert_eq!(get_line_number("", ""), None);
    assert_eq!(get_line_number("x", ""), Some(1));
}

#[test]
fn line_number_only_at_line_start() {
    assert_eq!(get_line_number("  a = 1\na = 2", "a = "), Some(2));
}

#[test]
fn line_number_with_crlf_endings() {
    let content = "one\r\ntwo\r\nthree";
    assert_eq!(get_line_number(content, "two"), Some(2));
    assert_eq!(get_line_number(content, "two\r"), None);
    assert_eq!(get_line_number(content, "three"), Some(3));
}

#[test]
fn strip_quotes_removes_one_matching_pair() {
    assert_eq!(strip_quotes("\"./check\""), "./check");
    assert_eq!(strip_quotes("'./vm'"), "./vm");
    assert_eq!(strip_quotes("\"mixed'"), "\"mixed'");
    assert_eq!(strip_quotes("\""), "\"");
    assert_eq!(strip_quotes("plain"), "plain");
    assert_eq!(strip_quotes("\"\""), "");
}

#[test]
fn replace_first_only_first_occurrence() {
    assert_eq!(replace_first_in("a-b-a", "a", "x"), "x-b-a");
    assert_eq!(replace_first_in("abc", "z", "x"), "abc");
    assert_eq!(
        replace_first_in("vm = { path = \"./vm\" }\n", "vm = { path = \"./vm\"", "vm = { version = \"1.0.0\""),
        "vm = { version = \"1.0.0\" }\n"
    );
}

#[test]
fn error_messages() {
    assert_eq!(MaggError::new("boom").message(), "boom");
    assert_eq!(
        error_spawn_command("gh", "not found").message(),
        "failed to spawn command: gh, with reason: not found"
    );
    assert_eq!(
        error_obtain_output("closed").message(),
        "failed to obtain command output with reason: closed"
    );
    assert_eq!(
        error_execute_command("exit status: 1", "out", "err").message(),
        "failed to execute command, status exit status: 1\nstdout:\nout\nstderr:\nerr\n"
    );
}

#[test]
fn canonicalize_reports_path_and_reason() {
    let path = "/definitely/not/here/./check/Carqo.toml";
    let resolved = std::path::Path::new(path)
        .canonicalize()
        .map(|p| p.display().to_string())
        .map_err(|e| e.to_string());
    let err = canonicalize(path, resolved).err().unwrap();
    assert_eq!(
        err.message(),
        "failed to canonicalize path: /definitely/not/here/./check/Carqo.toml, reason: No such file or directory (os error 2)"
    );
}

#[test]
fn canonicalize_passes_resolved_path() {
    let r = canonicalize("./x", Ok("/abs/x".to_string()));
    assert_eq!(r.ok().unwrap(), "/abs/x");
}
