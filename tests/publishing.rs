use magg::document::{parse_toml, TomlNode};
use magg::publisher::collect_crates;
use magg::sequencer::{Action, Event, Publisher, Stage};
use magg::workspace::load_workspace;

const TWO_CRATES: &str = r#"[workspace]
members = ["check", "vm"]

[workspace.package]
version = "1.0.0"

[workspace.dependencies]
check = { path = "./check" }
vm = { path = "./vm" }
"#;

const CRATE_CHECK: &str = r#"[package]
name = "check"
version = { workspace = true }
"#;

const CRATE_VM: &str = r#"[package]
name = "vm"
version = { workspace = true }
"#;

fn start(text: &str, simulation: bool) -> Result<(Publisher, Action), String> {
    let doc = parse_toml(text).map_err(|e| e.message().to_string())?;
    let ws = load_workspace("/ws/Cargo.toml", &doc).map_err(|e| e.message().to_string())?;
    Publisher::start(&ws, text, 0, simulation).map_err(|e| e.message().to_string())
}

fn collect_names(text: &str) -> Result<Vec<(String, usize, usize)>, String> {
    let doc = parse_toml(text).map_err(|e| e.message().to_string())?;
    let ws = load_workspace("/ws/Cargo.toml", &doc).map_err(|e| e.message().to_string())?;
    let crates = collect_crates(&ws, text).map_err(|e| e.message().to_string())?;
    Ok(crates.iter().map(|c| (c.name.clone(), c.line_number, c.padding)).collect())
}

/// Outcome of a driven run: the texts written, the commands run and how it ended.
struct Run {
    saved: Vec<String>,
    commands: Vec<String>,
    result: Result<(), String>,
    stage: Stage,
}

/// Drives a run to its end: every confirmation is answered `answer`,
/// manifests come from `manifests` by crate index, and the publish command
/// of crate `fail_at` (if any) fails.
fn drive(text: &str, manifests: &[&str], answer: bool, fail_at: Option<usize>) -> Run {
    let (mut p, mut action) = match start(text, true) {
        Ok(x) => x,
        Err(m) => {
            return Run { saved: vec![], commands: vec![], result: Err(m), stage: Stage::Failed };
        }
    };
    let mut saved = vec![];
    let mut commands = vec![];
    loop {
        let event = match action {
            Action::LoadManifest { index } => Event::ManifestRead(manifests[index].to_string()),
            Action::ConfirmVersion | Action::ConfirmCrates => Event::Answer(answer),
            Action::ConfirmDryRun { .. } | Action::ConfirmPublish { .. } => Event::Answer(answer),
            Action::RunCommand { index, program, args } => {
                commands.push(format!("{} {} {}", index, program, args.join(" ")));
                if fail_at == Some(index) && args.iter().any(|a| a.contains("<publish>")) {
                    Event::CommandFailed(magg::errors::MaggError::new(
                        "executing command failed with status code: exit status: 1",
                    ))
                } else {
                    Event::CommandSucceeded
                }
            }
            Action::Wait { .. } => Event::WaitOver,
            Action::SaveManifest { text } => {
                saved.push(text);
                Event::Saved
            }
            Action::Finish => {
                return Run { saved, commands, result: Ok(()), stage: p.stage() };
            }
            Action::Fail(e) => {
                return Run { saved, commands, result: Err(e.message().to_string()), stage: p.stage() };
            }
        };
        action = p.step(event);
    }
}

#[test]
fn publish_rewrites_both_path_dependencies() {
    let run = drive(TWO_CRATES, &[CRATE_CHECK, CRATE_VM], true, None);
    assert!(run.result.is_ok());
    assert!(matches!(run.stage, Stage::Completed));
    let expected = TWO_CRATES
        .replace("check = { path = \"./check\" }", "check = { version = \"1.0.0\" }")
        .replace("vm = { path = \"./vm\" }", "vm = { version = \"1.0.0\" }");
    assert_eq!(run.saved.last().unwrap(), &expected);
    assert_eq!(run.saved.len(), 2);
    assert_eq!(
        run.commands,
        vec![
            "0 echo simulating <dry-run>",
            "0 echo simulating <publish>",
            "1 echo simulating <dry-run>",
            "1 echo simulating <publish>",
        ]
    );
}

#[test]
fn second_run_finds_no_crates() {
    let run = drive(TWO_CRATES, &[CRATE_CHECK, CRATE_VM], true, None);
    let rewritten = run.saved.last().unwrap().clone();
    let again = drive(&rewritten, &[CRATE_CHECK, CRATE_VM], true, None);
    assert_eq!(again.result, Err("no crates to publish".to_string()));
    assert!(again.saved.is_empty());
}

#[test]
fn publish_order_follows_lines_not_table_order() {
    // The parsed table hands the keys out sorted; the lines say otherwise.
    let text = r#"[workspace.package]
version = "2.0.0"

[workspace]

[workspace.dependencies]
zeta = { path = "zeta" }
alpha-long = { path = "alpha" }
mid = { path = "mid" }
serde = "1.0"
"#;
    let crates = collect_names(text).unwrap();
    assert_eq!(
        crates,
        vec![
            ("zeta".to_string(), 7, 6),
            ("alpha-long".to_string(), 8, 0),
            ("mid".to_string(), 9, 7),
        ]
    );
}

#[test]
fn path_and_version_together_rejected() {
    let text = r#"[workspace]
[workspace.package]
version = "1.0.0"
[workspace.dependencies]
check = { path = "./check", version = "1.0.0" }
"#;
    assert_eq!(
        collect_names(text),
        Err("dependency 'check' must not have 'version' attribute set".to_string())
    );
}

#[test]
fn misformatted_dependency_line_rejected() {
    let text = r#"[workspace]
[workspace.package]
version = "1.0.0"
[workspace.dependencies]
check = {path="./check"}
"#;
    assert_eq!(
        collect_names(text),
        Err("invalid formatting for dependency 'check', expected 'check = { path = \"./check\"'".to_string())
    );
}

#[test]
fn no_path_dependencies_rejected() {
    let text = "[workspace]\n[workspace.package]\nversion = \"1.0.0\"\n[workspace.dependencies]\nserde = \"1\"\n";
    assert_eq!(collect_names(text), Err("no crates to publish".to_string()));
}

#[test]
fn workspace_structure_errors() {
    let cases = [
        ("[package]\nname = \"x\"\n", "missing [workspace] table"),
        ("[workspace]\nmembers = []\n", "missing [workspace.package] table"),
        ("[workspace.package]\nedition = \"2021\"\n", "missing 'version' in [workspace.package] table"),
        ("[workspace.package]\nversion = 1\n", "'version' is not a string in [workspace.package] table"),
        ("[workspace.package]\nversion = \"1\"\n", "missing [workspace.dependencies] table"),
        ("[workspace]\ndependencies = 3\n[workspace.package]\nversion = \"1\"\n", "[workspace.dependencies] is not a table"),
        (
            "[workspace.package]\nversion = \"1\"\n[workspace.dependencies]\na = { path = 1 }\n",
            "'path' is not a string for 'a' in [workspace.dependencies] table",
        ),
        (
            "[workspace.package]\nversion = \"1\"\n[workspace.dependencies]\na = { version = true }\n",
            "'version' is not a string for 'a' in [workspace.dependencies] table",
        ),
    ];
    for (text, message) in cases {
        let doc = parse_toml(text).unwrap();
        let err = load_workspace("/ws/Cargo.toml", &doc).err().unwrap();
        assert_eq!(err.message(), message);
    }
}

#[test]
fn workspace_model_fields() {
    let doc = parse_toml(TWO_CRATES).unwrap();
    let ws = load_workspace("/ws/Cargo.toml", &doc).ok().unwrap();
    assert_eq!(ws.manifest(), "/ws/Cargo.toml");
    assert_eq!(ws.version(), "1.0.0");
    let deps = ws.dependencies();
    assert_eq!(deps.len(), 2);
    assert_eq!(deps[0].name, "check");
    assert_eq!(deps[0].path.as_deref(), Some("./check"));
    assert_eq!(deps[0].version, None);
}

#[test]
fn parse_error_carries_location() {
    let err = parse_toml("[workspace\n").err().unwrap();
    assert!(err.message().starts_with("TOML parse error at line 1, column 11"));
}

#[test]
fn document_accessors() {
    let doc = parse_toml("a = \"x\"\nb = true\n[t]\nc = 1\n").unwrap();
    assert_eq!(doc.get("a").and_then(|n| n.as_str()), Some("x"));
    assert_eq!(doc.get("b").and_then(|n| n.as_bool()), Some(true));
    assert!(doc.get("t").and_then(|n| n.as_table()).is_some());
    assert!(matches!(doc.get("t").and_then(|n| n.get("c")), Some(TomlNode::Int(1))));
    assert!(doc.get("missing").is_none());
    assert!(doc.get("a").unwrap().get("a").is_none());
}

const ORDER_WS: &str = r#"[workspace]
members = ["check", "vm"]

[workspace.package]
version = "1.0.0"

[workspace.dependencies]
cosmwasm-check = { path = "./check" }
cosmwasm-vm = { path = "./vm" }
"#;

const ORDER_CHECK: &str = r#"[package]
name = "cosmwasm-check"
version = { workspace = true }

[dependencies]
cosmwasm-vm = { workspace = true }
"#;

const ORDER_VM: &str = r#"[package]
name = "cosmwasm-vm"
version = { workspace = true }
"#;

#[test]
fn dependency_listed_after_dependent_rejected() {
    let run = drive(ORDER_WS, &[ORDER_CHECK, ORDER_VM], true, None);
    assert_eq!(
        run.result,
        Err("invalid publish order, dependency 'cosmwasm-vm' must be published before crate 'cosmwasm-check'".to_string())
    );
    assert!(run.saved.is_empty());
    assert!(run.commands.is_empty());
}

#[test]
fn failed_validation_of_last_crate_writes_nothing() {
    let bad_vm = "[package]\nname = \"vm\"\nversion = \"1.0.0\"\n";
    let run = drive(TWO_CRATES, &[CRATE_CHECK, bad_vm], true, None);
    assert_eq!(
        run.result,
        Err("missing [package].version.workspace attribute in manifest for dependency 'vm'".to_string())
    );
    assert!(run.saved.is_empty());
    assert!(run.commands.is_empty());
}

#[test]
fn failed_publish_keeps_earlier_rewrites() {
    let run = drive(TWO_CRATES, &[CRATE_CHECK, CRATE_VM], true, Some(1));
    assert_eq!(
        run.result,
        Err("executing command failed with status code: exit status: 1".to_string())
    );
    assert!(matches!(run.stage, Stage::Failed));
    let expected = TWO_CRATES.replace("check = { path = \"./check\" }", "check = { version = \"1.0.0\" }");
    assert_eq!(run.saved, vec![expected]);
}

#[test]
fn declining_version_aborts_cleanly() {
    let run = drive(TWO_CRATES, &[CRATE_CHECK, CRATE_VM], false, None);
    assert!(run.result.is_ok());
    assert!(matches!(run.stage, Stage::Aborted));
    assert!(run.saved.is_empty());
}

#[test]
fn crate_manifest_errors() {
    let cases = [
        ("[lib]\n", "missing [package] section in manifest for dependency 'check'"),
        ("[package]\n", "missing [package].name attribute in manifest for dependency 'check'"),
        ("[package]\nname = 1\n", "invalid [package].name attribute in manifest for dependency 'check'"),
        (
            "[package]\nname = \"other\"\n",
            "expected 'name = \"check\"', actual 'name = \"other\"' in manifest for dependency 'check'",
        ),
        ("[package]\nname = \"check\"\n", "missing [package].version attribute in manifest for dependency 'check'"),
        (
            "[package]\nname = \"check\"\nversion = { workspace = 1 }\n",
            "invalid [package].version.workspace attribute in manifest for dependency 'check'",
        ),
        (
            "[package]\nname = \"check\"\nversion = { workspace = false }\n",
            "[package].version.workspace attribute in crate 'check' must have value 'true'",
        ),
        (
            "dependencies = 1\n[package]\nname = \"check\"\nversion = { workspace = true }\n",
            "[dependencies] section is not a table in crate 'check'",
        ),
        (
            "dev-dependencies = 1\n[package]\nname = \"check\"\nversion = { workspace = true }\n",
            "[dev-dependencies] section is not a table in crate 'check'",
        ),
    ];
    for (manifest, message) in cases {
        let run = drive(TWO_CRATES, &[manifest, CRATE_VM], true, None);
        assert_eq!(run.result, Err(message.to_string()));
    }
}

#[test]
fn cross_dependency_errors() {
    let base = "[package]\nname = \"vm\"\nversion = { workspace = true }\n[dev-dependencies]\n";
    let cases = [
        ("check = \"1.0\"\n", "missing dependency check.workspace attribute in crate 'vm'"),
        ("check = { workspace = \"yes\" }\n", "invalid dependency check.workspace attribute in crate 'vm'"),
        (
            "check = { workspace = false }\n",
            "dependency check.workspace attribute in crate 'vm' must have value 'true'",
        ),
        (
            "check = { workspace = true, version = \"1\" }\n",
            "'check' dependency must not have 'version' attribute set in crate 'vm'",
        ),
        (
            "check = { workspace = true, path = \"../check\" }\n",
            "'check' dependency must not have 'path' attribute set in crate 'vm'",
        ),
    ];
    for (entry, message) in cases {
        let manifest = format!("{base}{entry}");
        let run = drive(TWO_CRATES, &[CRATE_CHECK, &manifest], true, None);
        assert_eq!(run.result, Err(message.to_string()));
        assert!(run.saved.is_empty());
    }
    // A well-formed dependency on an earlier crate passes.
    let manifest = format!("{base}check = {{ workspace = true }}\nother = \"1\"\n");
    let run = drive(TWO_CRATES, &[CRATE_CHECK, &manifest], true, None);
    assert!(run.result.is_ok());
}

#[test]
fn real_publish_commands() {
    let (mut p, a) = start(TWO_CRATES, false).unwrap();
    assert!(matches!(a, Action::LoadManifest { index: 0 }));
    assert!(matches!(p.step(Event::ManifestRead(CRATE_CHECK.to_string())), Action::LoadManifest { index: 1 }));
    assert!(matches!(p.step(Event::ManifestRead(CRATE_VM.to_string())), Action::ConfirmVersion));
    assert!(matches!(p.step(Event::Answer(true)), Action::ConfirmCrates));
    assert!(matches!(p.step(Event::Answer(true)), Action::ConfirmDryRun { index: 0 }));
    match p.step(Event::Answer(true)) {
        Action::RunCommand { index, program, args } => {
            assert_eq!(index, 0);
            assert_eq!(program, "cargo");
            assert_eq!(args, vec!["publish", "--dry-run", "--color=always"]);
        }
        _ => panic!("expected a command"),
    }
    assert!(matches!(p.step(Event::CommandSucceeded), Action::ConfirmPublish { index: 0 }));
    match p.step(Event::Answer(true)) {
        Action::RunCommand { program, args, .. } => {
            assert_eq!(program, "cargo");
            assert_eq!(args, vec!["publish", "--color=always"]);
        }
        _ => panic!("expected a command"),
    }
    assert!(matches!(p.step(Event::CommandSucceeded), Action::Wait { index: 0, seconds: 0 }));
    assert_eq!(p.version(), "1.0.0");
    assert_eq!(p.crates().len(), 2);
    assert_eq!(p.text(), TWO_CRATES);
}

#[test]
fn save_failure_stops_the_run() {
    let (mut p, _) = start(TWO_CRATES, true).unwrap();
    p.step(Event::ManifestRead(CRATE_CHECK.to_string()));
    p.step(Event::ManifestRead(CRATE_VM.to_string()));
    p.step(Event::Answer(true));
    p.step(Event::Answer(true));
    p.step(Event::Answer(false));
    assert!(matches!(p.step(Event::Answer(false)), Action::Wait { index: 0, .. }));
    assert!(matches!(p.step(Event::WaitOver), Action::SaveManifest { .. }));
    match p.step(Event::SaveFailed(magg::errors::MaggError::new("disk full"))) {
        Action::Fail(e) => assert_eq!(e.message(), "disk full"),
        _ => panic!("expected a failure"),
    }
}

#[test]
fn unreadable_crate_manifest_fails() {
    let (mut p, _) = start(TWO_CRATES, true).unwrap();
    match p.step(Event::ManifestUnavailable(magg::errors::MaggError::new("failed to canonicalize path: x, reason: gone"))) {
        Action::Fail(e) => assert_eq!(e.message(), "failed to canonicalize path: x, reason: gone"),
        _ => panic!("expected a failure"),
    }
    assert!(matches!(p.stage(), Stage::Failed));
}
