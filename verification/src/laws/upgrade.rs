//! Upgrading the program.
use vstd::prelude::*;
use vstd::string::*;

use crate::json::Json;
use crate::text::{has_substring, joined, texts};
use crate::upgrade::{
    check_version, end_upgrade, latest_version, lines_view, method_by_brew, method_by_path,
    start_exit_code, start_upgrade, upgrade_command, without_leading, InstallMethod, Style,
    SystemCommand, UpgradeEnd, UpgradeStart, VersionCheck,
};

verus! {

/// The latest version is the tag of the release without every `v` that it begins with, and
/// nothing else is taken away; without a tag it is not known.
pub proof fn law_version_is_the_tag_without_its_prefix(
    release: &Json,
    r: Result<String, String>,
    n: nat,
    rest: Seq<char>,
)
    requires
        call_ensures(latest_version, (release,), r),
        rest.len() > 0 ==> rest[0] != 'v',
    ensures
        r is Ok <==> release.view().str_at("tag_name"@) is Some,
        r matches Err(m) ==> m@ == "No tag_name in GitHub release response"@,
        release.view().str_at("tag_name"@) == Some(Seq::new(n, |i: int| 'v') + rest) ==> (
        r matches Ok(v) && v@ == rest),
{
    lemma_without_leading(n, rest);
}

proof fn lemma_without_leading(n: nat, rest: Seq<char>)
    requires
        rest.len() > 0 ==> rest[0] != 'v',
    ensures
        without_leading(Seq::new(n, |i: int| 'v') + rest, 'v') == rest,
    decreases n,
{
    let s = Seq::new(n, |i: int| 'v') + rest;
    if n == 0 {
        assert(s == rest);
    } else {
        assert(s[0] == 'v');
        assert(s.skip(1) == Seq::new((n - 1) as nat, |i: int| 'v') + rest);
        lemma_without_leading((n - 1) as nat, rest);
    }
}

/// A program below `.cargo/bin` was installed by Cargo, one below a directory of Homebrew
/// by Homebrew; of any other Homebrew has to be asked.
pub proof fn law_path_tells_how_it_was_installed(
    path: Option<&str>,
    r: Option<InstallMethod>,
    listed: bool,
    asked: InstallMethod,
)
    requires
        call_ensures(method_by_path, (path,), r),
        call_ensures(method_by_brew, (listed,), asked),
    ensures
        path is None ==> r is None,
        path matches Some(p) ==> {
            let cargo = has_substring(p@, "/.cargo/bin/"@);
            let brew = has_substring(p@, "/Cellar/agent-browser/"@) || has_substring(
                p@,
                "/homebrew/"@,
            ) || has_substring(p@, "/linuxbrew/"@);
            &&& r == Some(InstallMethod::Cargo) <==> cargo
            &&& r == Some(InstallMethod::Homebrew) <==> brew && !cargo
            &&& r is None <==> !brew && !cargo
        },
        listed ==> asked == InstallMethod::Homebrew,
        !listed ==> asked == InstallMethod::Unknown,
{
}

/// The program is upgraded by what has installed it, and not at all where that is not
/// known.
pub proof fn law_upgrade_runs_what_installed_it(method: InstallMethod, r: Option<SystemCommand>)
    requires
        call_ensures(upgrade_command, (method,), r),
    ensures
        r is None <==> method == InstallMethod::Unknown,
        r matches Some(c) ==> {
            &&& method == InstallMethod::Homebrew ==> c.program@ == "brew"@ && texts(c.args@)
                == seq!["upgrade"@, "agent-browser"@]
            &&& method == InstallMethod::Cargo ==> c.program@ == "cargo"@ && texts(c.args@)
                == seq!["install"@, "agent-browser"@, "--force"@]
            &&& c.display@ == c.program@ + " "@ + joined(texts(c.args@), " "@)
        },
{
    if let Some(c) = r {
        let a = texts(c.args@);
        let s = " "@;
        reveal_with_fuel(joined, 3);
        reveal_strlit(" ");
        reveal_strlit("agent-browser");
        if method == InstallMethod::Homebrew {
            reveal_strlit("brew");
            reveal_strlit("upgrade");
            reveal_strlit("brew upgrade agent-browser");
            assert(a.drop_last()[0] == "upgrade"@);
            assert(joined(a, s) == "upgrade"@ + s + "agent-browser"@);
            assert(c.display@ == "brew"@ + s + ("upgrade"@ + s + "agent-browser"@));
        } else {
            reveal_strlit("cargo");
            reveal_strlit("install");
            reveal_strlit("--force");
            reveal_strlit("cargo install agent-browser --force");
            let b = a.drop_last();
            assert(b[1] == "agent-browser"@);
            assert(b.drop_last()[0] == "install"@);
            assert(joined(b, s) == "install"@ + s + "agent-browser"@);
            assert(joined(a, s) == "install"@ + s + "agent-browser"@ + s + "--force"@);
            assert(c.display@ == "cargo"@ + s + ("install"@ + s + "agent-browser"@ + s
                + "--force"@));
        }
    }
}

/// The upgrade is over exactly where the latest version is known and is the present one,
/// which is then said; where it is not known a warning tells why.
pub proof fn law_upgrade_is_over_at_the_latest_version(
    current: &str,
    fetched: Result<String, String>,
    r: VersionCheck,
)
    requires
        call_ensures(check_version, (current, fetched), r),
    ensures
        fetched matches Ok(v) ==> r.latest@ == v@ && (r.over <==> v@.len() > 0 && v@ == current@),
        fetched is Err ==> r.latest@.len() == 0 && !r.over,
        r.lines@.len() == (if fetched is Err || r.over {
            1int
        } else {
            0
        }),
        fetched matches Err(e) ==> r.lines@[0].style == Style::Warning && r.lines@[0].text@
            == "Could not check latest version: "@ + e@,
        r.over ==> r.lines@[0].style == Style::Success && r.lines@[0].text@
            == "agent-browser is already at the latest version (v"@ + current@ + ")"@,
{
    let v = lines_view(r.lines@);
    assert(v.len() == r.lines@.len());
    if v.len() > 0 {
        assert(v[0] == r.lines@[0].view());
    }
}

/// An upgrade that goes on runs the command for how the program was installed, and says
/// how that was, which versions it goes between and what it runs; one that cannot go on
/// says so as an error, and ends with failure.
pub proof fn law_upgrade_starts_or_fails(
    current: &str,
    latest: &str,
    method: InstallMethod,
    command: Option<SystemCommand>,
    r: UpgradeStart,
    code: Option<i32>,
)
    requires
        call_ensures(upgrade_command, (method,), command),
        call_ensures(start_upgrade, (current, latest, method), r),
        call_ensures(start_exit_code, (&r,), code),
    ensures
        r.command is Some <==> method != InstallMethod::Unknown,
        code == (if method == InstallMethod::Unknown {
            Some(1i32)
        } else {
            None
        }),
        r.command matches Some(c) ==> command is Some && c.program@ == command->Some_0.program@
            && texts(c.args@) == texts(command->Some_0.args@),
        method == InstallMethod::Unknown ==> {
            &&& r.lines@.len() == 4
            &&& r.lines@[0].style == Style::Error
            &&& r.lines@[0].text@ == "Could not detect installation method."@
            &&& r.lines@[1].text@ == "  To update manually:"@
            &&& r.lines@[2].text@ == "    brew upgrade agent-browser              # Homebrew"@
            &&& r.lines@[3].text@ == "    cargo install agent-browser --force     # Cargo"@
        },
        method != InstallMethod::Unknown ==> {
            &&& r.lines@.len() == 3
            &&& method == InstallMethod::Homebrew ==> r.lines@[0].text@
                == "Detected installation via "@ + "Homebrew"@ + "."@
            &&& method == InstallMethod::Cargo ==> r.lines@[0].text@
                == "Detected installation via "@ + "Cargo"@ + "."@
            &&& latest@.len() > 0 ==> r.lines@[1].text@ == "Upgrading agent-browser... v"@
                + current@ + " → v"@ + latest@
            &&& latest@.len() == 0 ==> r.lines@[1].text@ == "Upgrading agent-browser (v"@
                + current@ + ")..."@
            &&& r.lines@[2].text@ == "Running: "@ + r.command->Some_0.display@
        },
{
    let v = lines_view(r.lines@);
    assert(v.len() == r.lines@.len());
    assert(v[0] == r.lines@[0].view());
    if method == InstallMethod::Unknown {
        assert(v[1] == r.lines@[1].view());
        assert(v[2] == r.lines@[2].view());
        assert(v[3] == r.lines@[3].view());
    }
    if method != InstallMethod::Unknown {
        assert(v[1] == r.lines@[1].view());
        assert(v[2] == r.lines@[2].view());
    }
}

/// An upgrade whose command has succeeded ends with success, one whose command has failed
/// with failure, and its last line says which.
pub proof fn law_upgrade_ends_as_its_command(
    current: &str,
    latest: &str,
    success: bool,
    r: UpgradeEnd,
)
    requires
        call_ensures(end_upgrade, (current, latest, success), r),
    ensures
        success <==> r.exit_code == 0,
        !success ==> r.exit_code == 1 && r.line.style == Style::Error && r.line.text@
            == "Upgrade failed."@,
        success ==> r.line.style == Style::Success,
        success && latest@.len() > 0 ==> r.line.text@ == "Done! v"@ + current@ + " → v"@ + latest@,
        success && latest@.len() == 0 ==> r.line.text@ == "Done!"@,
{
}

} // verus!
