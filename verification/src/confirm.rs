//! Commands that wait for the user's confirmation.
use vstd::prelude::*;
use vstd::string::*;

use crate::cdp::json_outcome;
use crate::json::{copied_texts, Fields, Json, JsonV};
use crate::text::{same, texts};

verus! {

/// A command that waits for confirmation: the action it needs leave for, and the actions
/// that had it before.
#[derive(PartialEq, Eq, Debug)]
pub struct Pending {
    pub action: String,
    pub cmd: Json,
    pub approved_actions: Vec<String>,
}

/// What the user has agreed to, and what waits for agreement.
#[derive(PartialEq, Eq, Debug)]
pub struct Approvals {
    pub pending: Option<Pending>,
    pub confirmed: Vec<String>,
}

/// A confirmed command that is to run, and what was agreed to before it.
#[derive(PartialEq, Eq, Debug)]
pub struct Confirmed {
    pub action: String,
    pub cmd: Json,
    pub previous: Vec<String>,
}

/// The contents of a command that waits.
pub ghost struct PendingV {
    pub action: Seq<char>,
    pub cmd: JsonV,
    pub approved_actions: Seq<Seq<char>>,
}

/// The contents of the approvals.
pub ghost struct ApprovalsV {
    pub pending: Option<PendingV>,
    pub confirmed: Seq<Seq<char>>,
}

/// The contents of a confirmed command.
pub ghost struct ConfirmedV {
    pub action: Seq<char>,
    pub cmd: JsonV,
    pub previous: Seq<Seq<char>>,
}

impl Approvals {
    /// The contents of the approvals.
    pub open spec fn view(self) -> ApprovalsV {
        ApprovalsV {
            pending: match self.pending {
                Some(p) => Some(
                    PendingV {
                        action: p.action@,
                        cmd: p.cmd.view(),
                        approved_actions: texts(p.approved_actions@),
                    },
                ),
                None => None,
            },
            confirmed: texts(self.confirmed@),
        }
    }
}

impl Confirmed {
    /// The contents of the confirmed command.
    pub open spec fn view(self) -> ConfirmedV {
        ConfirmedV { action: self.action@, cmd: self.cmd.view(), previous: texts(self.previous@) }
    }
}

/// The approvals while a confirmed command runs: its own action and those that it had
/// leave for before, and no others.
pub open spec fn running(a: ApprovalsV) -> ApprovalsV {
    match a.pending {
        Some(p) => ApprovalsV {
            pending: None,
            confirmed: with_action(p.approved_actions, p.action),
        },
        None => a,
    }
}

/// The command that is confirmed, or the error where none waits.
pub open spec fn taken(a: ApprovalsV) -> Result<ConfirmedV, Seq<char>> {
    match a.pending {
        Some(p) => Ok(ConfirmedV { action: p.action, cmd: p.cmd, previous: a.confirmed }),
        None => Err("No pending confirmation"@),
    }
}

/// The approvals once a confirmed command has run: what was agreed to before it.
pub open spec fn restored(a: ApprovalsV, done: ConfirmedV) -> ApprovalsV {
    ApprovalsV { confirmed: done.previous, ..a }
}

/// The actions with one more, unless it is among them.
pub open spec fn with_action(actions: Seq<Seq<char>>, action: Seq<char>) -> Seq<Seq<char>> {
    if actions.contains(action) {
        actions
    } else {
        actions.push(action)
    }
}

fn is_among(action: &str, actions: &Vec<String>) -> (r: bool)
    ensures
        r == texts(actions@).contains(action@),
{
    for i in 0..actions.len()
        invariant
            forall|j: int| 0 <= j < i ==> texts(actions@)[j] != action@,
    {
        assert(texts(actions@)[i as int] == actions@[i as int]@);
        if same(&actions[i], action) {
            return true;
        }
    }
    false
}

impl Approvals {
    /// Takes the command that waits. While it runs, its own action and those that it had
    /// leave for before are agreed to, and no others.
    pub fn handle_confirm(&mut self) -> (r: Result<Confirmed, String>)
        ensures
            final(self).view() == running(old(self).view()),
            match r {
                Ok(c) => taken(old(self).view()) == Ok::<ConfirmedV, Seq<char>>(c.view()),
                Err(e) => taken(old(self).view()) == Err::<ConfirmedV, Seq<char>>(e@),
            },
    {
        match self.pending.take() {
            Some(p) => {
                let mut approved = copied_texts(&p.approved_actions);
                if !is_among(&p.action, &approved) {
                    let ghost before = texts(approved@);
                    approved.push(p.action.clone());
                    assert(texts(approved@) == before.push(p.action@));
                }
                let mut previous = approved;
                std::mem::swap(&mut previous, &mut self.confirmed);
                Ok(Confirmed { action: p.action, cmd: p.cmd, previous })
            },
            None => Err("No pending confirmation".to_owned()),
        }
    }

    /// Ends a confirmed command with its result: what was agreed to before it is again
    /// all that is.
    pub fn finish_confirm(&mut self, done: Confirmed, result: Json) -> (r: Json)
        ensures
            final(self).view() == restored(old(self).view(), done.view()),
            r.view() == JsonV::Object(
                seq![
                    ("confirmed"@, JsonV::Bool(true)),
                    ("action"@, JsonV::Str(done.action@)),
                    ("result"@, result.view()),
                ],
            ),
    {
        self.confirmed = done.previous;
        let f = Fields::new().with("confirmed", Json::truth(true)).with(
            "action",
            Json::text(&done.action),
        ).with("result", result);
        assert(f.view() == seq![
            ("confirmed"@, JsonV::Bool(true)),
            ("action"@, JsonV::Str(done.action@)),
            ("result"@, result.view()),
        ]);
        f.done()
    }

    /// Drops the command that waits.
    pub fn handle_deny(&mut self) -> (r: Result<Json, String>)
        ensures
            final(self).view() == (ApprovalsV { pending: None, ..old(self).view() }),
            json_outcome(r) == match old(self).view().pending {
                Some(p) => Ok(
                    JsonV::Object(
                        seq![("denied"@, JsonV::Bool(true)), ("action"@, JsonV::Str(p.action))],
                    ),
                ),
                None => Err("No pending confirmation"@),
            },
    {
        match self.pending.take() {
            Some(p) => {
                let f = Fields::new().with("denied", Json::truth(true)).with(
                    "action",
                    Json::text(&p.action),
                );
                assert(f.view() == seq![
                    ("denied"@, JsonV::Bool(true)),
                    ("action"@, JsonV::Str(p.action@)),
                ]);
                Ok(f.done())
            },
            None => Err("No pending confirmation".to_owned()),
        }
    }
}

/// A confirmed action is among those that are agreed to while its command runs, and
/// every other one was agreed to before.
pub proof fn law_confirmation_covers_its_action(actions: Seq<Seq<char>>, action: Seq<char>)
    ensures
        with_action(actions, action).contains(action),
        forall|a: Seq<char>|
            #[trigger] with_action(actions, action).contains(a) <==> actions.contains(a) || a
                == action,
{
    if !actions.contains(action) {
        let more = actions.push(action);
        assert(more[actions.len() as int] == action);
        assert forall|a: Seq<char>| #[trigger] more.contains(a) <==> actions.contains(a) || a
            == action by {
            if actions.contains(a) {
                let i = choose|i: int| 0 <= i < actions.len() && actions[i] == a;
                assert(more[i] == a);
            }
            if more.contains(a) && a != action {
                let i = choose|i: int| 0 <= i < more.len() && more[i] == a;
                assert(actions[i] == a);
            }
        }
    }
}

/// A confirmation is for one command: whatever that command does to the approvals, once
/// it has run the same actions are agreed to as before it.
pub proof fn law_confirmation_is_for_one_command(before: ApprovalsV, during: ApprovalsV)
    requires
        before.pending is Some,
    ensures
        taken(before) matches Ok(done) && restored(during, done).confirmed == before.confirmed
            && restored(during, done).pending == during.pending,
{
}

/// A command is confirmed or denied once: after that none waits.
pub proof fn law_confirmation_is_taken_once(before: ApprovalsV)
    ensures
        taken(running(before)) is Err,
{
}

} // verus!
