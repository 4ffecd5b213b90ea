//! What a command has to hold, and the session that it works in.
use vstd::prelude::*;
use vstd::string::*;

use crate::cdp::{req_str, Browser, CdpCommand};
use crate::json::{opt_string, Json};

verus! {

/// Why there is no active session.
pub open spec fn refusal(browser: Browser) -> Seq<char> {
    match browser {
        Browser::NoSession(e) => e@,
        _ => "Browser not launched"@,
    }
}

/// A command works in the active session; without one it is refused with the reason.
pub proof fn law_command_needs_a_session(browser: &Browser, r: Result<String, String>)
    requires
        call_ensures(Browser::session, (browser,), r),
    ensures
        r is Ok <==> browser is Session,
        r matches Ok(s) ==> s@ == browser->Session_0@,
        r matches Err(e) ==> e@ == refusal(*browser),
{
}

/// A command has to hold a string under a key that is required; it is refused with the
/// name of the key where it does not.
pub proof fn law_required_string_is_read(cmd: &Json, key: &str, r: Result<String, String>)
    requires
        call_ensures(req_str, (cmd, key), r),
    ensures
        r is Ok <==> cmd.view().str_at(key@) is Some,
        r matches Ok(s) ==> cmd.view().str_at(key@) == Some(s@),
        r matches Err(e) ==> e@ == "Missing '"@ + key@ + "' parameter"@,
{
}

/// A command to the browser has the method, the parameters and the session that it was
/// made with.
pub proof fn law_command_is_as_made(
    method: &str,
    params: Json,
    session: &str,
    full: CdpCommand,
    bare: CdpCommand,
)
    requires
        call_ensures(CdpCommand::new, (method, params, session), full),
        call_ensures(CdpCommand::bare, (method, session), bare),
    ensures
        full.method@ == method@ && bare.method@ == method@,
        full.params is Some && full.params->Some_0.view() == params.view(),
        bare.params is None,
        opt_string(full.session) == Some(session@) && opt_string(bare.session) == Some(session@),
{
    assert(full.view().params is Some);
    assert(bare.view().params is None);
}

} // verus!
