use agent_browser::json::{Json, Num, Real};
use agent_browser::upgrade::{
    check_version, end_upgrade, latest_version, method_by_brew, method_by_path, start_exit_code,
    start_upgrade, upgrade_command, InstallMethod, Line, Style, FAILURE,
};

fn convert(v: &serde_json::Value) -> Json {
    match v {
        serde_json::Value::Null => Json::Null,
        serde_json::Value::Bool(b) => Json::Bool(*b),
        serde_json::Value::Number(n) => Json::Number(if let Some(u) = n.as_u64() {
            Num::Unsigned(u)
        } else if let Some(i) = n.as_i64() {
            Num::Negative(i)
        } else {
            Num::Float(Real { bits: n.as_f64().unwrap().to_bits() })
        }),
        serde_json::Value::String(s) => Json::Str(s.clone()),
        serde_json::Value::Array(a) => Json::Array(a.iter().map(convert).collect()),
        serde_json::Value::Object(m) => {
            Json::Object(m.iter().map(|(k, v)| (k.clone(), convert(v))).collect())
        }
    }
}

fn parse(text: &str) -> Json {
    convert(&serde_json::from_str(text).unwrap())
}

fn show(j: &Json) -> String {
    match j {
        Json::Null => "null".to_string(),
        Json::Bool(b) => b.to_string(),
        Json::Number(Num::Unsigned(n)) => n.to_string(),
        Json::Number(Num::Negative(n)) => n.to_string(),
        Json::Number(Num::Float(x)) => format!("{:?}", f64::from_bits(x.bits)),
        Json::Str(s) => format!("{:?}", s),
        Json::Array(a) => format!("[{}]", a.iter().map(show).collect::<Vec<_>>().join(",")),
        Json::Object(o) => format!(
            "{{{}}}",
            o.iter().map(|(k, v)| format!("{:?}:{}", k, show(v))).collect::<Vec<_>>().join(",")
        ),
    }
}

fn shown(lines: &[Line]) -> Vec<String> {
    lines.iter().map(|l| format!("{:?}: {}", l.style, l.text)).collect()
}

#[test]
fn a_version_has_no_prefix() {
    let v = |t: &str| latest_version(&parse(t));
    assert_eq!(v("{\"tag_name\":\"v1.2.3\"}").unwrap(), "1.2.3");
    assert_eq!(v("{\"tag_name\":\"vv2\"}").unwrap(), "2");
    assert_eq!(v("{\"tag_name\":\"1.0v\"}").unwrap(), "1.0v");
    assert_eq!(v("{\"tag_name\":\"v\"}").unwrap(), "");
    assert_eq!(
        v("{\"message\":\"Not Found\"}").unwrap_err(),
        "No tag_name in GitHub release response"
    );
    assert!(v("{\"tag_name\":1}").is_err());
    assert!(!show(&parse("{}")).contains('v'));
}

#[test]
fn paths_tell_how_the_program_was_installed() {
    let by = |p: &str| method_by_path(Some(p));
    assert_eq!(by("/home/u/.cargo/bin/agent-browser"), Some(InstallMethod::Cargo));
    assert_eq!(by("/usr/local/Cellar/agent-browser/1/bin/x"), Some(InstallMethod::Homebrew));
    assert_eq!(by("/opt/homebrew/bin/x"), Some(InstallMethod::Homebrew));
    assert_eq!(by("/home/linuxbrew/x"), Some(InstallMethod::Homebrew));
    assert_eq!(by("/homebrew/.cargo/bin/x"), Some(InstallMethod::Cargo));
    assert_eq!(by("/usr/bin/agent-browser"), None);
    assert_eq!(method_by_path(None), None);
    assert_eq!(method_by_brew(true), InstallMethod::Homebrew);
    assert_eq!(method_by_brew(false), InstallMethod::Unknown);
}

#[test]
fn each_method_has_its_command() {
    let c = upgrade_command(InstallMethod::Homebrew).unwrap();
    assert_eq!((c.program.as_str(), c.display.as_str()), ("brew", "brew upgrade agent-browser"));
    assert_eq!(c.args, vec!["upgrade", "agent-browser"]);
    let c = upgrade_command(InstallMethod::Cargo).unwrap();
    assert_eq!(c.program, "cargo");
    assert_eq!(c.args, vec!["install", "agent-browser", "--force"]);
    assert_eq!(c.display, "cargo install agent-browser --force");
    assert_eq!(upgrade_command(InstallMethod::Unknown), None);
}

#[test]
fn stops_at_the_latest_version() {
    let c = check_version("1.0", Ok("1.0".to_string()));
    assert!(c.over);
    assert_eq!(
        shown(&c.lines),
        vec!["Success: agent-browser is already at the latest version (v1.0)"]
    );
    let c = check_version("1.0", Ok("1.1".to_string()));
    assert!(!c.over && c.lines.is_empty());
    assert_eq!(c.latest, "1.1");
}

#[test]
fn an_unknown_version_goes_on() {
    let c = check_version("1.0", Err("offline".to_string()));
    assert!(!c.over);
    assert_eq!(c.latest, "");
    assert_eq!(shown(&c.lines), vec!["Warning: Could not check latest version: offline"]);
    assert!(!check_version("", Ok(String::new())).over);
}

#[test]
fn starts_an_upgrade() {
    let s = start_upgrade("1.0", "1.1", InstallMethod::Cargo);
    assert_eq!(
        shown(&s.lines),
        vec![
            "Plain: Detected installation via Cargo.",
            "Cyan: Upgrading agent-browser... v1.0 → v1.1",
            "Plain: Running: cargo install agent-browser --force",
        ]
    );
    assert!(s.command.is_some());
    let s = start_upgrade("1.0", "", InstallMethod::Homebrew);
    assert_eq!(s.lines[0].text, "Detected installation via Homebrew.");
    assert_eq!(s.lines[1].text, "Upgrading agent-browser (v1.0)...");
}

#[test]
fn no_command_is_an_error() {
    let s = start_upgrade("1.0", "1.1", InstallMethod::Unknown);
    assert_eq!(s.command, None);
    assert_eq!(
        shown(&s.lines),
        vec![
            "Error: Could not detect installation method.",
            "ErrorNote:   To update manually:",
            "ErrorNote:     brew upgrade agent-browser              # Homebrew",
            "ErrorNote:     cargo install agent-browser --force     # Cargo",
        ]
    );
}

#[test]
fn ends_an_upgrade() {
    let good = end_upgrade("1", "2", true);
    assert_eq!((good.line.text.as_str(), good.exit_code), ("Done! v1 → v2", 0));
    assert_eq!(end_upgrade("1", "", true).line.text, "Done!");
    let bad = end_upgrade("1", "2", false);
    assert_eq!((bad.line.style, bad.line.text.as_str()), (Style::Error, "Upgrade failed."));
    assert_eq!(bad.exit_code, 1);
}

#[test]
fn an_upgrade_without_a_command_ends_in_failure() {
    let code = |method| start_exit_code(&start_upgrade("1.0", "1.1", method));
    assert_eq!(code(InstallMethod::Unknown), Some(FAILURE));
    assert_eq!(FAILURE, 1);
    assert_eq!(code(InstallMethod::Cargo), None);
    assert_eq!(code(InstallMethod::Homebrew), None);
}
