//! Commands that wait for the user's confirmation.
use vstd::prelude::*;
use vstd::string::*;

use crate::confirm::{law_confirmation_covers_its_action, with_action, Approvals, Confirmed};
use crate::json::{lemma_field_found, Json};
use crate::text::texts;

verus! {

/// A command that waits is handed out once it is confirmed, and then no longer waits;
/// while it runs exactly its own action and those that it had leave for are agreed to.
/// Where none waits nothing changes.
pub proof fn law_waiting_command_is_confirmed(
    a: &mut Approvals,
    r: Result<Confirmed, String>,
    action: Seq<char>,
)
    requires
        call_ensures(Approvals::handle_confirm, (a,), r),
    ensures
        r is Ok <==> old(a).pending is Some,
        final(a).pending is None,
        r matches Ok(c) ==> {
            let p = old(a).pending->Some_0;
            &&& c.action@ == p.action@
            &&& c.cmd.view() == p.cmd.view()
            &&& texts(c.previous@) == texts(old(a).confirmed@)
            &&& texts(final(a).confirmed@).contains(action) <==> action == p.action@ || texts(
                p.approved_actions@,
            ).contains(action)
            &&& texts(p.approved_actions@).contains(p.action@) ==> texts(final(a).confirmed@)
                == texts(p.approved_actions@)
        },
        r matches Err(e) ==> e@ == "No pending confirmation"@ && texts(final(a).confirmed@)
            == texts(old(a).confirmed@),
{
    if let Ok(c) = r {
        let p = old(a).pending->Some_0;
        law_confirmation_covers_its_action(texts(p.approved_actions@), p.action@);
        assert(texts(final(a).confirmed@) == with_action(texts(p.approved_actions@), p.action@));
    }
}

/// Once a confirmed command has run, what was agreed to before it is again all that is,
/// and its result is answered under its action.
pub proof fn law_confirmation_ends_with_the_command(
    a: &mut Approvals,
    done: Confirmed,
    result: Json,
    r: Json,
)
    requires
        call_ensures(Approvals::finish_confirm, (a, done, result), r),
    ensures
        texts(final(a).confirmed@) == texts(done.previous@),
        final(a).view().pending == old(a).view().pending,
        r.view().bool_at("confirmed"@) == Some(true),
        r.view().str_at("action"@) == Some(done.action@),
        r.view().get("result"@) == Some(result.view()),
{
    lemma_reply_keys();
    let f = r.view()->Object_0;
    lemma_field_found(f, "confirmed"@, 0);
    lemma_field_found(f, "action"@, 1);
    lemma_field_found(f, "result"@, 2);
}

proof fn lemma_reply_keys()
    ensures
        "confirmed"@ != "action"@,
        "confirmed"@ != "result"@,
        "action"@ != "result"@,
        "denied"@ != "action"@,
{
    reveal_strlit("confirmed");
    reveal_strlit("action");
    reveal_strlit("result");
    reveal_strlit("denied");
    assert("confirmed"@.len() == 9 && "action"@.len() == 6 && "result"@.len() == 6);
    assert("action"@[0] == 'a' && "result"@[0] == 'r' && "denied"@[0] == 'd');
}

/// A command that is denied no longer waits, and nothing else is agreed to or taken back.
pub proof fn law_denied_command_is_dropped(a: &mut Approvals, r: Result<Json, String>)
    requires
        call_ensures(Approvals::handle_deny, (a,), r),
    ensures
        r is Ok <==> old(a).pending is Some,
        final(a).pending is None,
        texts(final(a).confirmed@) == texts(old(a).confirmed@),
        r matches Err(e) ==> e@ == "No pending confirmation"@,
        r matches Ok(j) ==> j.view().bool_at("denied"@) == Some(true) && j.view().str_at("action"@)
            == Some(old(a).pending->Some_0.action@),
{
    assert(final(a).view().pending is None);
    lemma_reply_keys();
    if let Ok(j) = r {
        let f = j.view()->Object_0;
        lemma_field_found(f, "denied"@, 0);
        lemma_field_found(f, "action"@, 1);
    }
}

} // verus!
