//! Swipes: where they go, by which of the two drivers, and in which steps.
use vstd::prelude::*;
use vstd::string::*;

use crate::cdp::{command, Browser, CdpCommand, CommandV};
use crate::json::{or_else, Fields, Items, Json, JsonV, Num, Real};
use crate::text::same;

verus! {

/// A distance along one axis, as it is added to the starting point.
#[derive(PartialEq, Eq, Debug)]
pub enum Offset {
    Zero,
    Plus(Num),
    Minus(Num),
}

/// Where a swipe goes: in a direction, or to a point.
#[derive(PartialEq, Eq, Debug)]
pub enum SwipePath {
    Toward { direction: String, dx: Offset, dy: Offset },
    To { x: Num, y: Num },
}

/// A swipe.
#[derive(PartialEq, Eq, Debug)]
pub struct Swipe {
    pub start_x: Num,
    pub start_y: Num,
    pub path: SwipePath,
    pub duration_ms: u64,
}

/// Who carries out a swipe: the mobile driver, or the browser by touch events in a
/// session.
#[derive(PartialEq, Eq, Debug)]
pub enum SwipeDriver {
    Mobile,
    Touch(String),
}

/// The offsets of a swipe over a distance. Up and down go along the second axis, of
/// which the numbers grow downwards; a direction of another name counts as up.
pub open spec fn offsets(direction: Seq<char>, distance: Num) -> (Offset, Offset) {
    if direction == "up"@ {
        (Offset::Zero, Offset::Minus(distance))
    } else if direction == "down"@ {
        (Offset::Zero, Offset::Plus(distance))
    } else if direction == "left"@ {
        (Offset::Minus(distance), Offset::Zero)
    } else if direction == "right"@ {
        (Offset::Plus(distance), Offset::Zero)
    } else {
        (Offset::Zero, Offset::Minus(distance))
    }
}

/// The offsets of a swipe over a distance.
pub fn swipe_offsets(direction: &str, distance: Num) -> (r: (Offset, Offset))
    ensures
        r == offsets(direction@, distance),
{
    if same(direction, "up") {
        (Offset::Zero, Offset::Minus(distance))
    } else if same(direction, "down") {
        (Offset::Zero, Offset::Plus(distance))
    } else if same(direction, "left") {
        (Offset::Minus(distance), Offset::Zero)
    } else if same(direction, "right") {
        (Offset::Plus(distance), Offset::Zero)
    } else {
        (Offset::Zero, Offset::Minus(distance))
    }
}

/// The swipe is the one that the command describes: from (200, 400) by default; in
/// the direction that it names, over 300 by default; without a direction to the
/// point that it gives, (200, 100) by default; in 800 milliseconds by default.
pub open spec fn described_by(swipe: Swipe, cmd: JsonV) -> bool {
    &&& swipe.start_x == or_else(cmd.number_at("startX"@), Num::Unsigned(200))
    &&& swipe.start_y == or_else(cmd.number_at("startY"@), Num::Unsigned(400))
    &&& swipe.duration_ms == or_else(cmd.u64_at("duration"@), 800u64)
    &&& match cmd.str_at("direction"@) {
        Some(d) => match swipe.path {
            SwipePath::Toward { direction, dx, dy } => direction@ == d && (dx, dy) == offsets(
                d,
                or_else(cmd.number_at("distance"@), Num::Unsigned(300)),
            ),
            SwipePath::To { .. } => false,
        },
        None => match swipe.path {
            SwipePath::Toward { .. } => false,
            SwipePath::To { x, y } => x == or_else(cmd.number_at("endX"@), Num::Unsigned(200)) && y
                == or_else(cmd.number_at("endY"@), Num::Unsigned(100)),
        },
    }
}

fn number_or(cmd: &Json, key: &str, default: u64) -> (r: Num)
    ensures
        r == or_else(cmd.view().number_at(key@), Num::Unsigned(default)),
{
    match cmd.number_at(key) {
        Some(n) => n,
        None => Num::Unsigned(default),
    }
}

/// The swipe that a command describes.
pub fn swipe_from_command(cmd: &Json) -> (r: Swipe)
    ensures
        described_by(r, cmd.view()),
{
    let path = match cmd.str_at("direction") {
        Some(d) => {
            let (dx, dy) = swipe_offsets(d, number_or(cmd, "distance", 300));
            SwipePath::Toward { direction: d.to_owned(), dx, dy }
        },
        None => SwipePath::To { x: number_or(cmd, "endX", 200), y: number_or(cmd, "endY", 100) },
    };
    Swipe {
        start_x: number_or(cmd, "startX", 200),
        start_y: number_or(cmd, "startY", 400),
        path,
        duration_ms: match cmd.u64_at("duration") {
            Some(n) => n,
            None => 800,
        },
    }
}

/// The swipe that a command asks for, and who carries it out: the mobile driver
/// where it is connected and no browser is launched, else the browser, which then
/// has to have an active session.
pub fn handle_swipe(cmd: &Json, mobile_connected: bool, browser: &Browser) -> (r: Result<
    (SwipeDriver, Swipe),
    String,
>)
    ensures
        if mobile_connected && browser is NotLaunched {
            r is Ok && r->Ok_0.0 is Mobile && described_by(r->Ok_0.1, cmd.view())
        } else {
            match browser.session_view() {
                Err(e) => r is Err && r->Err_0@ == e,
                Ok(session) => {
                    &&& r is Ok
                    &&& described_by(r->Ok_0.1, cmd.view())
                    &&& r->Ok_0.0 matches SwipeDriver::Touch(s) && s@ == session
                },
            }
        },
{
    let launched = match browser {
        Browser::NotLaunched => false,
        _ => true,
    };
    if mobile_connected && !launched {
        return Ok((SwipeDriver::Mobile, swipe_from_command(cmd)));
    }
    match browser.session() {
        Ok(s) => Ok((SwipeDriver::Touch(s), swipe_from_command(cmd))),
        Err(e) => Err(e),
    }
}

/// How many moves a swipe by touch events takes.
pub const SWIPE_MOVES: u32 = 10;

/// How long to wait behind each move, in milliseconds.
pub const SWIPE_PAUSE_MS: u64 = 16;

/// One step of a swipe by touch events. A move goes to the point after so many of
/// `SWIPE_MOVES` equal parts of the way.
#[derive(PartialEq, Eq, Debug)]
pub enum TouchStep {
    Start,
    Move(u32),
    Pause(u64),
    End,
}

/// The steps of a swipe: the touch starts, moves along the way in equal parts with a
/// pause behind each, and ends.
pub open spec fn touch_steps() -> Seq<TouchStep> {
    Seq::new(
        22,
        |i: int|
            if i == 0 {
                TouchStep::Start
            } else if i == 21 {
                TouchStep::End
            } else if i % 2 == 1 {
                TouchStep::Move(((i + 1) / 2) as u32)
            } else {
                TouchStep::Pause(SWIPE_PAUSE_MS)
            },
    )
}

/// The steps of a swipe by touch events.
pub fn swipe_steps() -> (r: Vec<TouchStep>)
    ensures
        r@ == touch_steps(),
{
    let mut out: Vec<TouchStep> = Vec::new();
    out.push(TouchStep::Start);
    for i in 1..(SWIPE_MOVES + 1)
        invariant
            out@.len() == 2 * i - 1,
            out@ == touch_steps().take(2 * i - 1),
    {
        out.push(TouchStep::Move(i));
        out.push(TouchStep::Pause(SWIPE_PAUSE_MS));
        assert(out@ == touch_steps().take(2 * i + 1)) by {
            let n = 2 * i - 1;
            assert(touch_steps()[n] == TouchStep::Move(i));
            assert(touch_steps()[n + 1] == TouchStep::Pause(SWIPE_PAUSE_MS));
        }
    }
    out.push(TouchStep::End);
    out
}

/// A touch event with the given touch points.
pub open spec fn touch_event(kind: Seq<char>, points: Seq<JsonV>, session: Seq<char>) -> CommandV {
    command(
        "Input.dispatchTouchEvent"@,
        JsonV::Object(seq![("type"@, JsonV::Str(kind)), ("touchPoints"@, JsonV::Array(points))]),
        session,
    )
}

/// A touch point.
pub open spec fn touch_point(p: (Real, Real)) -> JsonV {
    JsonV::Object(
        seq![
            ("x"@, JsonV::Number(Num::Float(p.0))),
            ("y"@, JsonV::Number(Num::Float(p.1))),
        ],
    )
}

/// The command that a step of a swipe sends, at the given point; a pause sends none, and
/// the end of the touch has no point.
pub open spec fn step_command(step: TouchStep, at: (Real, Real), session: Seq<char>) -> Option<
    CommandV,
> {
    match step {
        TouchStep::Start => Some(touch_event("touchStart"@, seq![touch_point(at)], session)),
        TouchStep::Move(_) => Some(touch_event("touchMove"@, seq![touch_point(at)], session)),
        TouchStep::Pause(_) => None,
        TouchStep::End => Some(touch_event("touchEnd"@, Seq::<JsonV>::empty(), session)),
    }
}

fn touch(kind: &str, points: Items, session: &str) -> (r: CdpCommand)
    ensures
        r.view() == touch_event(kind@, points.view(), session@),
{
    let f = Fields::new().with("type", Json::text(kind)).with("touchPoints", points.done());
    assert(f.view() == seq![
        ("type"@, JsonV::Str(kind@)),
        ("touchPoints"@, JsonV::Array(points.view())),
    ]);
    CdpCommand::new("Input.dispatchTouchEvent", f.done(), session)
}

fn one_point(p: (Real, Real)) -> (r: Items)
    ensures
        r.view() == seq![touch_point(p)],
{
    let f = Fields::new().with("x", Json::Number(Num::Float(p.0))).with(
        "y",
        Json::Number(Num::Float(p.1)),
    );
    assert(f.view() == touch_point(p)->Object_0);
    let mut items = Items::new();
    items.push(f.done());
    assert(items.view() == seq![touch_point(p)]);
    items
}

/// The command that a step of a swipe sends, at the given point.
pub fn touch_command(step: &TouchStep, at: (Real, Real), session: &str) -> (r: Option<CdpCommand>)
    ensures
        match r {
            Some(c) => step_command(*step, at, session@) == Some(c.view()),
            None => step_command(*step, at, session@) is None,
        },
{
    match step {
        TouchStep::Start => Some(touch("touchStart", one_point(at), session)),
        TouchStep::Move(_) => Some(touch("touchMove", one_point(at), session)),
        TouchStep::Pause(_) => None,
        TouchStep::End => Some(touch("touchEnd", Items::new(), session)),
    }
}

/// A swipe starts where it starts and reaches the end of its way: the last move is
/// the one after all parts, and the moves come in rising order.
pub proof fn law_moves_rise_to_the_end(i: int, j: int)
    requires
        0 <= i < j < touch_steps().len(),
        touch_steps()[i] is Move,
        touch_steps()[j] is Move,
    ensures
        touch_steps()[i]->Move_0 < touch_steps()[j]->Move_0 <= SWIPE_MOVES,
        touch_steps()[19] == TouchStep::Move(SWIPE_MOVES),
{
}

/// What to answer to a swipe: its direction, or the points that it went between.
pub open spec fn swipe_reply_view(
    path: SwipePath,
    from: (Real, Real),
    to: (Real, Real),
) -> JsonV {
    match path {
        SwipePath::Toward { direction, .. } => JsonV::Object(
            seq![("swiped"@, JsonV::Str(direction@))],
        ),
        SwipePath::To { .. } => JsonV::Object(
            seq![
                ("swiped"@, JsonV::Bool(true)),
                ("from"@, point_view(from)),
                ("to"@, point_view(to)),
            ],
        ),
    }
}

/// A point as a JSON array.
pub open spec fn point_view(p: (Real, Real)) -> JsonV {
    JsonV::Array(seq![JsonV::Number(Num::Float(p.0)), JsonV::Number(Num::Float(p.1))])
}

fn point(p: (Real, Real)) -> (r: Json)
    ensures
        r.view() == point_view(p),
{
    let mut items = Items::new();
    items.push(Json::Number(Num::Float(p.0)));
    items.push(Json::Number(Num::Float(p.1)));
    assert(items.view() == seq![JsonV::Number(Num::Float(p.0)), JsonV::Number(Num::Float(p.1))]);
    items.done()
}

/// What to answer to a swipe.
pub fn swipe_reply(path: &SwipePath, from: (Real, Real), to: (Real, Real)) -> (r: Json)
    ensures
        r.view() == swipe_reply_view(*path, from, to),
{
    match path {
        SwipePath::Toward { direction, .. } => {
            let f = Fields::new().with("swiped", Json::text(direction));
            assert(f.view() == seq![("swiped"@, JsonV::Str(direction@))]);
            f.done()
        },
        SwipePath::To { .. } => {
            let f = Fields::new().with("swiped", Json::truth(true)).with("from", point(from)).with(
                "to",
                point(to),
            );
            assert(f.view() == seq![
                ("swiped"@, JsonV::Bool(true)),
                ("from"@, point_view(from)),
                ("to"@, point_view(to)),
            ]);
            f.done()
        },
    }
}

} // verus!
