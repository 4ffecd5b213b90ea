//! Swipes.
use vstd::prelude::*;
use vstd::string::*;

use crate::cdp::{Browser, CdpCommand};
use crate::json::{lemma_field_found, opt_string, Json, JsonV, Num, Real};
use crate::laws::cdp::refusal;
use crate::swipe::{
    described_by, handle_swipe, swipe_from_command, swipe_offsets, swipe_reply, swipe_steps,
    touch_command, Offset, Swipe, SwipeDriver, SwipePath, TouchStep,
};

verus! {

/// A swipe goes up or down along the second axis, of which the numbers grow downwards, and
/// left or right along the first; another direction counts as up.
pub proof fn law_swipe_goes_in_its_direction(
    direction: &str,
    distance: Num,
    r: (Offset, Offset),
)
    requires
        call_ensures(swipe_offsets, (direction, distance), r),
    ensures
        direction@ == "down"@ ==> r.0 is Zero && r.1 == Offset::Plus(distance),
        direction@ == "left"@ ==> r.0 == Offset::Minus(distance) && r.1 is Zero,
        direction@ == "right"@ ==> r.0 == Offset::Plus(distance) && r.1 is Zero,
        direction@ != "down"@ && direction@ != "left"@ && direction@ != "right"@ ==> r.0 is Zero
            && r.1 == Offset::Minus(distance),
{
    reveal_strlit("up");
    reveal_strlit("down");
    reveal_strlit("left");
    reveal_strlit("right");
    assert("up"@.len() == 2 && "down"@.len() == 4 && "left"@.len() == 4 && "right"@.len() == 5);
    assert("down"@[0] != "left"@[0]);
}

/// A swipe starts where the command says and takes as long as it says. With a direction it
/// goes that way over the distance that the command gives; without one it goes to the
/// point that it gives.
pub proof fn law_swipe_is_as_described(
    cmd: &Json,
    r: Swipe,
    direction: &str,
    distance: Num,
    offsets: (Offset, Offset),
)
    requires
        call_ensures(swipe_from_command, (cmd,), r) || described_by(r, cmd.view()),
        call_ensures(swipe_offsets, (direction, distance), offsets),
    ensures
        ({
            let c = cmd.view();
            &&& c.number_at("startX"@) matches Some(x) ==> r.start_x == x
            &&& c.number_at("startX"@) is None ==> r.start_x == Num::Unsigned(200)
            &&& c.number_at("startY"@) matches Some(y) ==> r.start_y == y
            &&& c.number_at("startY"@) is None ==> r.start_y == Num::Unsigned(400)
            &&& c.u64_at("duration"@) matches Some(d) ==> r.duration_ms == d
            &&& c.u64_at("duration"@) is None ==> r.duration_ms == 800
            &&& c.str_at("direction"@) is Some <==> r.path is Toward
            &&& c.str_at("direction"@) == Some(direction@) && (c.number_at("distance"@) == Some(
                distance,
            ) || (c.number_at("distance"@) is None && distance == Num::Unsigned(300))) ==> (
            r.path matches SwipePath::Toward { direction: d, dx, dy } && d@ == direction@ && dx
                == offsets.0 && dy == offsets.1)
            &&& r.path matches SwipePath::To { x, y } ==> {
                &&& c.number_at("endX"@) matches Some(v) ==> x == v
                &&& c.number_at("endX"@) is None ==> x == Num::Unsigned(200)
                &&& c.number_at("endY"@) matches Some(v) ==> y == v
                &&& c.number_at("endY"@) is None ==> y == Num::Unsigned(100)
            }
        }),
{
}

/// A swipe is carried out by the mobile driver where it is connected and no browser is
/// launched, and by touch in the active session otherwise; there has to be one of the two.
pub proof fn law_swipe_has_a_driver(
    cmd: &Json,
    mobile: bool,
    browser: &Browser,
    r: Result<(SwipeDriver, Swipe), String>,
)
    requires
        call_ensures(handle_swipe, (cmd, mobile, browser), r),
    ensures
        r is Ok <==> browser is Session || (mobile && browser is NotLaunched),
        r matches Err(e) ==> e@ == refusal(*browser),
        r matches Ok((d, swipe)) ==> {
            &&& described_by(swipe, cmd.view())
            &&& d is Mobile <==> mobile && browser is NotLaunched
            &&& d matches SwipeDriver::Touch(s) ==> browser is Session && s@
                == browser->Session_0@
        },
{
}

/// A swipe by touch starts, moves along ten equal parts of the way in order, each with a
/// pause of 16 milliseconds behind it, and ends.
pub proof fn law_swipe_moves_in_ten_parts(r: Vec<TouchStep>, i: int)
    requires
        call_ensures(swipe_steps, (), r),
        1 <= i <= 10,
    ensures
        r@.len() == 22,
        r@[0] is Start,
        r@[21] is End,
        r@[2 * i - 1] == TouchStep::Move(i as u32),
        r@[2 * i] == TouchStep::Pause(16),
{
}

/// The start and the moves of a touch are sent with the point that they are at, its end
/// without one, to the session; a pause sends nothing.
pub proof fn law_touch_is_sent_where_it_is(
    step: &TouchStep,
    at: (Real, Real),
    session: &str,
    r: Option<CdpCommand>,
)
    requires
        call_ensures(touch_command, (step, at, session), r),
    ensures
        r is None <==> step is Pause,
        r matches Some(c) ==> {
            let p = c.view().params->Some_0;
            &&& c.method@ == "Input.dispatchTouchEvent"@
            &&& opt_string(c.session) == Some(session@)
            &&& c.view().params is Some
            &&& step is Start ==> p.str_at("type"@) == Some("touchStart"@)
            &&& step is Move ==> p.str_at("type"@) == Some("touchMove"@)
            &&& step is End ==> p.str_at("type"@) == Some("touchEnd"@)
            &&& p.get("touchPoints"@) matches Some(JsonV::Array(points)) && (step is End
                ==> points.len() == 0) && (!(step is End) ==> points.len() == 1
                && points[0].number_at("x"@) == Some(Num::Float(at.0)) && points[0].number_at(
                "y"@,
            ) == Some(Num::Float(at.1)))
        },
{
    lemma_touch_keys();
    if let Some(c) = r {
        let f = c.view().params->Some_0->Object_0;
        lemma_field_found(f, "type"@, 0);
        lemma_field_found(f, "touchPoints"@, 1);
        if !(step is End) {
            let q = f[1].1->Array_0[0]->Object_0;
            lemma_field_found(q, "x"@, 0);
            lemma_field_found(q, "y"@, 1);
        }
    }
}

proof fn lemma_touch_keys()
    ensures
        "type"@ != "touchPoints"@,
        "x"@ != "y"@,
        "swiped"@ != "from"@,
        "swiped"@ != "to"@,
        "from"@ != "to"@,
{
    reveal_strlit("type");
    reveal_strlit("touchPoints");
    reveal_strlit("x");
    reveal_strlit("y");
    reveal_strlit("swiped");
    reveal_strlit("from");
    reveal_strlit("to");
    assert("type"@.len() == 4 && "touchPoints"@.len() == 11 && "x"@[0] != "y"@[0]);
    assert("swiped"@.len() == 6 && "from"@.len() == 4 && "to"@.len() == 2);
}

/// A swipe is answered with its direction, or with the points that it went between.
pub proof fn law_swipe_is_answered(
    path: &SwipePath,
    from: (Real, Real),
    to: (Real, Real),
    r: Json,
)
    requires
        call_ensures(swipe_reply, (path, from, to), r),
    ensures
        path matches SwipePath::Toward { direction, .. } ==> r.view().str_at("swiped"@) == Some(
            direction@,
        ),
        path is To ==> {
            &&& r.view().bool_at("swiped"@) == Some(true)
            &&& r.view().get("from"@) matches Some(JsonV::Array(p)) && p.len() == 2 && p[0]
                == JsonV::Number(Num::Float(from.0)) && p[1] == JsonV::Number(Num::Float(from.1))
            &&& r.view().get("to"@) matches Some(JsonV::Array(p)) && p.len() == 2 && p[0]
                == JsonV::Number(Num::Float(to.0)) && p[1] == JsonV::Number(Num::Float(to.1))
        },
{
    lemma_touch_keys();
    let f = r.view()->Object_0;
    lemma_field_found(f, "swiped"@, 0);
    if path is To {
        lemma_field_found(f, "from"@, 1);
        lemma_field_found(f, "to"@, 2);
    }
}

} // verus!
