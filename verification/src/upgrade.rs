//! Upgrading the program: which version there is, how the program was installed, and
//! what is run and shown.
use vstd::prelude::*;
use vstd::string::*;

use crate::json::{opt_str, Json};
use crate::text::{contains, has_substring, same, texts};

verus! {

/// The text without the characters `c` at its start.
pub open spec fn without_leading(s: Seq<char>, c: char) -> Seq<char>
    decreases s.len(),
{
    if s.len() > 0 && s[0] == c {
        without_leading(s.skip(1), c)
    } else {
        s
    }
}

fn trim_leading(s: &str, c: char) -> (r: String)
    ensures
        r@ == without_leading(s@, c),
{
    let n = s.unicode_len();
    let mut i: usize = 0;
    assert(s@.skip(0) == s@);
    while i < n && s.get_char(i) == c
        invariant
            n == s@.len(),
            i <= n,
            without_leading(s@, c) == without_leading(s@.skip(i as int), c),
        decreases n - i,
    {
        assert(s@.skip(i as int)[0] == s@[i as int]);
        assert(s@.skip(i as int).skip(1) == s@.skip(i + 1));
        i = i + 1;
    }
    let rest = s.substring_char(i, n);
    assert(rest@ == s@.skip(i as int));
    rest.to_owned()
}

/// The version of the latest release: its tag, without the `v` that it starts with.
pub fn latest_version(release: &Json) -> (r: Result<String, String>)
    ensures
        match release.view().str_at("tag_name"@) {
            Some(tag) => r matches Ok(v) && v@ == without_leading(tag, 'v'),
            None => r matches Err(m) && m@ == "No tag_name in GitHub release response"@,
        },
{
    match release.str_at("tag_name") {
        Some(tag) => Ok(trim_leading(tag, 'v')),
        None => Err("No tag_name in GitHub release response".to_owned()),
    }
}

/// A version never starts with the `v` of its tag.
pub proof fn law_version_has_no_prefix(tag: Seq<char>)
    ensures
        without_leading(tag, 'v').len() > 0 ==> without_leading(tag, 'v')[0] != 'v',
        without_leading(without_leading(tag, 'v'), 'v') == without_leading(tag, 'v'),
    decreases tag.len(),
{
    if tag.len() > 0 && tag[0] == 'v' {
        law_version_has_no_prefix(tag.skip(1));
    }
}

/// How the program was installed.
#[derive(Clone, Copy, PartialEq, Eq, Structural, Debug)]
pub enum InstallMethod {
    Homebrew,
    Cargo,
    Unknown,
}

/// How the program was installed, as far as the path of its file tells.
pub open spec fn method_of_path(path: Seq<char>) -> Option<InstallMethod> {
    if has_substring(path, "/.cargo/bin/"@) {
        Some(InstallMethod::Cargo)
    } else if has_substring(path, "/Cellar/agent-browser/"@) || has_substring(path, "/homebrew/"@)
        || has_substring(path, "/linuxbrew/"@) {
        Some(InstallMethod::Homebrew)
    } else {
        None
    }
}

/// How the program was installed, as far as the path of its file tells; where it does
/// not, Homebrew has to be asked whether it knows the program.
pub fn method_by_path(path: Option<&str>) -> (r: Option<InstallMethod>)
    ensures
        r == match opt_str(path) {
            Some(p) => method_of_path(p),
            None => None,
        },
{
    match path {
        Some(p) => if contains(p, "/.cargo/bin/") {
            Some(InstallMethod::Cargo)
        } else if contains(p, "/Cellar/agent-browser/") || contains(p, "/homebrew/") || contains(
            p,
            "/linuxbrew/",
        ) {
            Some(InstallMethod::Homebrew)
        } else {
            None
        },
        None => None,
    }
}

/// How the program was installed, where its path does not tell and Homebrew was asked.
pub fn method_by_brew(brew_lists_it: bool) -> (r: InstallMethod)
    ensures
        r == if brew_lists_it {
            InstallMethod::Homebrew
        } else {
            InstallMethod::Unknown
        },
{
    if brew_lists_it {
        InstallMethod::Homebrew
    } else {
        InstallMethod::Unknown
    }
}

/// A command of the system, and how it is shown.
#[derive(PartialEq, Eq, Debug)]
pub struct SystemCommand {
    pub program: String,
    pub args: Vec<String>,
    pub display: String,
}

/// The contents of a system command.
pub ghost struct SystemCommandV {
    pub program: Seq<char>,
    pub args: Seq<Seq<char>>,
    pub display: Seq<char>,
}

impl SystemCommand {
    /// The contents of the command.
    pub open spec fn view(self) -> SystemCommandV {
        SystemCommandV { program: self.program@, args: texts(self.args@), display: self.display@ }
    }
}

/// The command that upgrades the program; none where it is not known how it was
/// installed.
pub open spec fn command_for(method: InstallMethod) -> Option<SystemCommandV> {
    match method {
        InstallMethod::Homebrew => Some(
            SystemCommandV {
                program: "brew"@,
                args: seq!["upgrade"@, "agent-browser"@],
                display: "brew upgrade agent-browser"@,
            },
        ),
        InstallMethod::Cargo => Some(
            SystemCommandV {
                program: "cargo"@,
                args: seq!["install"@, "agent-browser"@, "--force"@],
                display: "cargo install agent-browser --force"@,
            },
        ),
        InstallMethod::Unknown => None,
    }
}

/// The contents of an optional system command.
pub open spec fn opt_command(c: Option<SystemCommand>) -> Option<SystemCommandV> {
    match c {
        Some(c) => Some(c.view()),
        None => None,
    }
}

/// The command that upgrades the program.
pub fn upgrade_command(method: InstallMethod) -> (r: Option<SystemCommand>)
    ensures
        opt_command(r) == command_for(method),
{
    let mut args: Vec<String> = Vec::new();
    match method {
        InstallMethod::Homebrew => {
            args.push("upgrade".to_owned());
            args.push("agent-browser".to_owned());
            assert(texts(args@) == seq!["upgrade"@, "agent-browser"@]);
            Some(
                SystemCommand {
                    program: "brew".to_owned(),
                    args,
                    display: "brew upgrade agent-browser".to_owned(),
                },
            )
        },
        InstallMethod::Cargo => {
            args.push("install".to_owned());
            args.push("agent-browser".to_owned());
            args.push("--force".to_owned());
            assert(texts(args@) == seq!["install"@, "agent-browser"@, "--force"@]);
            Some(
                SystemCommand {
                    program: "cargo".to_owned(),
                    args,
                    display: "cargo install agent-browser --force".to_owned(),
                },
            )
        },
        InstallMethod::Unknown => None,
    }
}

/// How a line is shown: as it is, behind a mark, or in colour. Warnings and errors, and
/// what belongs to an error, go to the error stream.
#[derive(Clone, Copy, PartialEq, Eq, Structural, Debug)]
pub enum Style {
    Plain,
    Success,
    Warning,
    Error,
    ErrorNote,
    Cyan,
}

/// A line to show.
#[derive(PartialEq, Eq, Debug)]
pub struct Line {
    pub style: Style,
    pub text: String,
}

/// The contents of a line.
pub ghost struct LineV {
    pub style: Style,
    pub text: Seq<char>,
}

impl Line {
    /// The contents of the line.
    pub open spec fn view(self) -> LineV {
        LineV { style: self.style, text: self.text@ }
    }
}

/// The contents of several lines.
pub open spec fn lines_view(list: Seq<Line>) -> Seq<LineV> {
    list.map_values(|l: Line| l.view())
}

fn line(style: Style, text: &str) -> (r: Line)
    ensures
        r.view() == (LineV { style, text: text@ }),
{
    Line { style, text: text.to_owned() }
}

/// What an upgrade does, given the present version and what asking for the latest one
/// has brought: the latest version, empty where it is not known, and the lines to show.
/// It is over where the program has the latest version.
#[derive(PartialEq, Eq, Debug)]
pub struct VersionCheck {
    pub latest: String,
    pub over: bool,
    pub lines: Vec<Line>,
}

/// The latest version, empty where it is not known.
pub open spec fn known_latest(fetched: Result<Seq<char>, Seq<char>>) -> Seq<char> {
    match fetched {
        Ok(v) => v,
        Err(_) => Seq::<char>::empty(),
    }
}

/// The program has the latest version.
pub open spec fn up_to_date(current: Seq<char>, latest: Seq<char>) -> bool {
    latest.len() > 0 && current == latest
}

/// The lines that tell of the latest version.
pub open spec fn version_lines(
    current: Seq<char>,
    fetched: Result<Seq<char>, Seq<char>>,
) -> Seq<LineV> {
    (match fetched {
        Ok(_) => Seq::<LineV>::empty(),
        Err(e) => seq![
            LineV { style: Style::Warning, text: "Could not check latest version: "@ + e },
        ],
    }) + (if up_to_date(current, known_latest(fetched)) {
        seq![
            LineV {
                style: Style::Success,
                text: "agent-browser is already at the latest version (v"@ + current + ")"@,
            },
        ]
    } else {
        Seq::<LineV>::empty()
    })
}

/// What an upgrade does once the latest version was asked for.
pub fn check_version(current: &str, fetched: Result<String, String>) -> (r: VersionCheck)
    ensures
        r.latest@ == known_latest(crate::cdp::text_outcome(fetched)),
        r.over == up_to_date(current@, r.latest@),
        lines_view(r.lines@) == version_lines(current@, crate::cdp::text_outcome(fetched)),
{
    let ghost f = crate::cdp::text_outcome(fetched);
    let mut lines: Vec<Line> = Vec::new();
    let latest = match fetched {
        Ok(v) => v,
        Err(e) => {
            let mut m = "Could not check latest version: ".to_owned();
            m.append(e.as_str());
            lines.push(line(Style::Warning, &m));
            String::new()
        },
    };
    let over = !latest.as_str().is_empty() && same(current, &latest);
    if over {
        let mut m = "agent-browser is already at the latest version (v".to_owned();
        m.append(current);
        m.append(")");
        lines.push(line(Style::Success, &m));
    }
    assert(lines_view(lines@) == version_lines(current@, f));
    VersionCheck { latest, over, lines }
}

/// The lines that tell how to upgrade by hand.
pub open spec fn manual_lines() -> Seq<LineV> {
    seq![
        LineV { style: Style::Error, text: "Could not detect installation method."@ },
        LineV { style: Style::ErrorNote, text: "  To update manually:"@ },
        LineV {
            style: Style::ErrorNote,
            text: "    brew upgrade agent-browser              # Homebrew"@,
        },
        LineV {
            style: Style::ErrorNote,
            text: "    cargo install agent-browser --force     # Cargo"@,
        },
    ]
}

/// The line that tells from which version to which.
pub open spec fn upgrading(current: Seq<char>, latest: Seq<char>) -> Seq<char> {
    if latest.len() > 0 {
        "Upgrading agent-browser... v"@ + current + " → v"@ + latest
    } else {
        "Upgrading agent-browser (v"@ + current + ")..."@
    }
}

/// The lines before the command that upgrades is run.
pub open spec fn start_lines(
    current: Seq<char>,
    latest: Seq<char>,
    method: InstallMethod,
) -> Seq<LineV> {
    match command_for(method) {
        None => manual_lines(),
        Some(c) => seq![
            LineV {
                style: Style::Plain,
                text: "Detected installation via "@ + (if method == InstallMethod::Homebrew {
                    "Homebrew"@
                } else {
                    "Cargo"@
                }) + "."@,
            },
            LineV { style: Style::Cyan, text: upgrading(current, latest) },
            LineV { style: Style::Plain, text: "Running: "@ + c.display },
        ],
    }
}

/// The exit code of an upgrade that has failed.
pub const FAILURE: i32 = 1;

/// The command that an upgrade runs, and the lines before it. Without a command the
/// upgrade has failed.
#[derive(PartialEq, Eq, Debug)]
pub struct UpgradeStart {
    pub lines: Vec<Line>,
    pub command: Option<SystemCommand>,
}

/// How an upgrade goes on once it is known how the program was installed.
pub fn start_upgrade(current: &str, latest: &str, method: InstallMethod) -> (r: UpgradeStart)
    ensures
        lines_view(r.lines@) == start_lines(current@, latest@, method),
        opt_command(r.command) == command_for(method),
{
    let mut lines: Vec<Line> = Vec::new();
    let command = upgrade_command(method);
    match &command {
        None => {
            lines.push(line(Style::Error, "Could not detect installation method."));
            lines.push(line(Style::ErrorNote, "  To update manually:"));
            lines.push(
                line(
                    Style::ErrorNote,
                    "    brew upgrade agent-browser              # Homebrew",
                ),
            );
            lines.push(
                line(Style::ErrorNote, "    cargo install agent-browser --force     # Cargo"),
            );
            assert(lines_view(lines@) == manual_lines());
        },
        Some(c) => {
            let mut found = "Detected installation via ".to_owned();
            if method == InstallMethod::Homebrew {
                found.append("Homebrew");
            } else {
                found.append("Cargo");
            }
            found.append(".");
            let mut doing = String::new();
            if latest.is_empty() {
                doing.append("Upgrading agent-browser (v");
                doing.append(current);
                doing.append(")...");
            } else {
                doing.append("Upgrading agent-browser... v");
                doing.append(current);
                doing.append(" → v");
                doing.append(latest);
            }
            assert(doing@ == upgrading(current@, latest@));
            let mut running = "Running: ".to_owned();
            running.append(c.display.as_str());
            lines.push(line(Style::Plain, &found));
            lines.push(line(Style::Cyan, &doing));
            lines.push(line(Style::Plain, &running));
            assert(lines_view(lines@) == start_lines(current@, latest@, method));
        },
    }
    UpgradeStart { lines, command }
}

/// The exit code of an upgrade that ends before it has run a command; none where it
/// goes on.
pub fn start_exit_code(start: &UpgradeStart) -> (r: Option<i32>)
    ensures
        r == if start.command is None {
            Some(FAILURE)
        } else {
            None
        },
{
    if start.command.is_none() {
        Some(FAILURE)
    } else {
        None
    }
}

/// The last line of an upgrade.
pub open spec fn last_line(current: Seq<char>, latest: Seq<char>, success: bool) -> LineV {
    if !success {
        LineV { style: Style::Error, text: "Upgrade failed."@ }
    } else if latest.len() > 0 {
        LineV { style: Style::Success, text: "Done! v"@ + current + " → v"@ + latest }
    } else {
        LineV { style: Style::Success, text: "Done!"@ }
    }
}

/// How an upgrade ends whose command was run: the last line, and the exit code.
#[derive(PartialEq, Eq, Debug)]
pub struct UpgradeEnd {
    pub line: Line,
    pub exit_code: i32,
}

/// How an upgrade ends whose command was run.
pub fn end_upgrade(current: &str, latest: &str, success: bool) -> (r: UpgradeEnd)
    ensures
        r.line.view() == last_line(current@, latest@, success),
        r.exit_code == if success {
            0i32
        } else {
            FAILURE
        },
{
    if !success {
        UpgradeEnd { line: line(Style::Error, "Upgrade failed."), exit_code: FAILURE }
    } else if latest.is_empty() {
        UpgradeEnd { line: line(Style::Success, "Done!"), exit_code: 0 }
    } else {
        let mut m = "Done! v".to_owned();
        m.append(current);
        m.append(" → v");
        m.append(latest);
        UpgradeEnd { line: line(Style::Success, &m), exit_code: 0 }
    }
}

/// A version that is not known never passes for the latest one: the upgrade goes on.
pub proof fn law_unknown_version_goes_on(current: Seq<char>, error: Seq<char>)
    ensures
        !up_to_date(current, known_latest(Err(error))),
{
}

/// An upgrade shows an error before it ends without a command, and no error before it
/// runs one.
pub proof fn law_no_command_is_an_error(
    current: Seq<char>,
    latest: Seq<char>,
    method: InstallMethod,
)
    ensures
        command_for(method) is None <==> start_lines(current, latest, method)[0].style
            == Style::Error,
{
}

} // verus!
