//! Mouse, keyboard and touch input.
use vstd::prelude::*;
use vstd::string::*;

use crate::cdp::{Browser, Exchange};
use crate::input::{
    build_mouse_event_params, handle_input_keyboard, handle_input_mouse, handle_input_touch,
    handle_inserttext, handle_keydown, handle_keyup, handle_mousedown, handle_mousemove,
    handle_mouseup, law_press_and_release, law_primary_button_of_bit, mouse_button_mask,
    primary_button_from_mask, DispatchMouseEventParams, MouseExchange, MouseState,
};
use crate::json::{lemma_field_found, opt_string, Json, JsonV, Num};
use crate::laws::cdp::refusal;

verus! {

/// Each button has a bit of its own, by which it is shown; another name has none.
pub proof fn law_buttons_have_bits(button: &str, mask: i32, shown: &'static str)
    requires
        call_ensures(mouse_button_mask, (button,), mask),
        call_ensures(primary_button_from_mask, (mask,), shown),
    ensures
        button@ == "left"@ ==> mask == 1,
        button@ == "right"@ ==> mask == 2,
        button@ == "middle"@ ==> mask == 4,
        button@ == "back"@ ==> mask == 8,
        button@ == "forward"@ ==> mask == 16,
        mask != 0 ==> shown@ == button@,
        mask == 0 ==> shown@ == "none"@,
        button@ != "left"@ && button@ != "right"@ && button@ != "middle"@ && button@ != "back"@
            && button@ != "forward"@ ==> mask == 0,
{
    crate::input::lemma_button_names_differ();
    assert(0i32 & 1 == 0 && 0i32 & 2 == 0 && 0i32 & 4 == 0 && 0i32 & 8 == 0 && 0i32 & 16 == 0)
        by (bit_vector);
    if crate::input::is_button(button@) {
        law_primary_button_of_bit(button@);
    }
}

/// Of several buttons that are held, the left one is shown before the right one, that
/// before the middle one, and that before the two others.
pub proof fn law_most_important_button_is_shown(mask: i32, r: &'static str)
    requires
        call_ensures(primary_button_from_mask, (mask,), r),
    ensures
        mask & 1 != 0 ==> r@ == "left"@,
        mask & 1 == 0 && mask & 2 != 0 ==> r@ == "right"@,
        mask & 1 == 0 && mask & 2 == 0 && mask & 4 != 0 ==> r@ == "middle"@,
        mask & 1 == 0 && mask & 2 == 0 && mask & 4 == 0 && mask & 8 != 0 ==> r@ == "back"@,
        mask & 1 == 0 && mask & 2 == 0 && mask & 4 == 0 && mask & 8 == 0 && mask & 16 != 0 ==> r@
            == "forward"@,
        mask & 1 == 0 && mask & 2 == 0 && mask & 4 == 0 && mask & 8 == 0 && mask & 16 == 0 ==> r@
            == "none"@,
{
}

/// A mouse event goes to the point that is given, and leaves the mouse there; a
/// coordinate that is not given stays. What else is given goes into the event as it is,
/// and the event shows the buttons that are held after it.
pub proof fn law_mouse_event_is_as_given(
    mouse: &mut MouseState,
    event: &str,
    x: Option<Num>,
    y: Option<Num>,
    button: Option<&str>,
    buttons: Option<i32>,
    clicks: Option<i32>,
    dx: Option<Num>,
    dy: Option<Num>,
    modifiers: Option<i32>,
    r: DispatchMouseEventParams,
    shown: &'static str,
)
    requires
        call_ensures(
            build_mouse_event_params,
            (mouse, event, x, y, button, buttons, clicks, dx, dy, modifiers),
            r,
        ),
        call_ensures(primary_button_from_mask, (final(mouse).buttons,), shown),
    ensures
        r.event_type@ == event@,
        r.x == final(mouse).x && r.y == final(mouse).y,
        x matches Some(v) ==> r.x == v,
        y matches Some(v) ==> r.y == v,
        x is None ==> r.x == old(mouse).x,
        y is None ==> r.y == old(mouse).y,
        r.buttons == Some(final(mouse).buttons),
        buttons matches Some(b) ==> final(mouse).buttons == b,
        button matches Some(b) ==> r.button is Some && r.button->Some_0@ == b@,
        button is None ==> r.button is Some && r.button->Some_0@ == shown@,
        r.click_count == clicks && r.delta_x == dx && r.delta_y == dy && r.modifiers == modifiers,
{
}

/// A press holds its button, a release frees it, and neither changes whether another one
/// is held; any other event changes none. The button is the left one where none is named.
pub proof fn law_press_and_release_change_one_button(
    mouse: &mut MouseState,
    event: &str,
    button: Option<&str>,
    name: &str,
    bit: i32,
    other: &str,
    other_bit: i32,
    r: DispatchMouseEventParams,
)
    requires
        call_ensures(
            build_mouse_event_params,
            (mouse, event, None, None, button, None, None, None, None, None),
            r,
        ),
        button matches Some(b) ==> name@ == b@,
        button is None ==> name@ == "left"@,
        call_ensures(mouse_button_mask, (name,), bit),
        bit != 0,
        call_ensures(mouse_button_mask, (other,), other_bit),
        other@ != name@,
    ensures
        event@ == "mousePressed"@ ==> final(mouse).buttons & bit != 0 && final(mouse).buttons
            & other_bit == old(mouse).buttons & other_bit,
        event@ == "mouseReleased"@ ==> final(mouse).buttons & bit == 0 && final(mouse).buttons
            & other_bit == old(mouse).buttons & other_bit,
        event@ != "mousePressed"@ && event@ != "mouseReleased"@ ==> final(mouse).buttons == old(
            mouse,
        ).buttons,
{
    crate::input::lemma_button_names_differ();
    law_press_and_release(mouse.buttons, name@, other@);
    let h = mouse.buttons;
    let f = final(mouse).buttons;
    if other_bit == 0 {
        assert(h & 0i32 == 0 && f & 0i32 == 0) by (bit_vector);
    }
}

/// The event that a command describes is dispatched in the active session: of its type, a
/// move by default, at its point, with its button, its wheel movement and its modifiers.
/// Without an active session nothing changes.
pub proof fn law_described_mouse_event_is_dispatched(
    cmd: &Json,
    browser: &Browser,
    mouse: &mut MouseState,
    r: Result<MouseExchange, String>,
)
    requires
        call_ensures(handle_input_mouse, (cmd, browser, mouse), r),
    ensures
        r is Ok <==> browser is Session,
        r matches Err(e) ==> e@ == refusal(*browser),
        r is Err ==> *final(mouse) == *old(mouse),
        r matches Ok(m) ==> {
            let c = cmd.view();
            let p = m.params;
            &&& m.session@ == browser->Session_0@
            &&& c.str_at("type"@) matches Some(t) ==> p.event_type@ == t
            &&& c.str_at("type"@) is None ==> p.event_type@ == "mouseMoved"@
            &&& c.number_at("x"@) matches Some(x) ==> p.x == x
            &&& c.number_at("x"@) is None ==> p.x == old(mouse).x
            &&& c.number_at("y"@) matches Some(y) ==> p.y == y
            &&& c.number_at("y"@) is None ==> p.y == old(mouse).y
            &&& final(mouse).x == p.x && final(mouse).y == p.y
            &&& c.str_at("button"@) matches Some(b) ==> opt_string(p.button) == Some(b)
            &&& p.delta_x == c.number_at("deltaX"@)
            &&& p.delta_y == c.number_at("deltaY"@)
            &&& p.buttons == Some(final(mouse).buttons)
            &&& p.click_count is Some <==> c.i64_at("clickCount"@) is Some
            &&& c.i64_at("clickCount"@) matches Some(n) ==> (i32::MIN <= n <= i32::MAX
                ==> p.click_count == Some(n as i32))
            &&& p.modifiers is Some <==> c.i64_at("modifiers"@) is Some
            &&& c.i64_at("modifiers"@) matches Some(n) ==> (i32::MIN <= n <= i32::MAX
                ==> p.modifiers == Some(n as i32))
            &&& c.i64_at("buttons"@) matches Some(n) ==> (i32::MIN <= n <= i32::MAX
                ==> final(mouse).buttons == n as i32)
            &&& m.reply.view().str_at("dispatched"@) == Some(p.event_type@)
        },
{
    if let Ok(m) = r {
        lemma_field_found(m.reply.view()->Object_0, "dispatched"@, 0);
    }
}

/// A move goes to the point that the command gives, each coordinate 0 where it gives none,
/// and changes no button.
pub proof fn law_move_goes_to_the_point(
    cmd: &Json,
    browser: &Browser,
    mouse: &mut MouseState,
    r: Result<MouseExchange, String>,
    shown: &'static str,
)
    requires
        call_ensures(handle_mousemove, (cmd, browser, mouse), r),
        call_ensures(primary_button_from_mask, (old(mouse).buttons,), shown),
    ensures
        r is Ok <==> browser is Session,
        r matches Err(e) ==> e@ == refusal(*browser),
        r is Err ==> *final(mouse) == *old(mouse),
        r matches Ok(m) ==> {
            let c = cmd.view();
            &&& m.session@ == browser->Session_0@
            &&& m.params.event_type@ == "mouseMoved"@
            &&& c.number_at("x"@) matches Some(x) ==> m.params.x == x
            &&& c.number_at("x"@) is None ==> m.params.x == Num::Unsigned(0)
            &&& c.number_at("y"@) matches Some(y) ==> m.params.y == y
            &&& c.number_at("y"@) is None ==> m.params.y == Num::Unsigned(0)
            &&& final(mouse).x == m.params.x && final(mouse).y == m.params.y
            &&& final(mouse).buttons == old(mouse).buttons
            &&& m.params.buttons == Some(old(mouse).buttons)
            &&& m.params.click_count is None && m.params.delta_x is None
                && m.params.delta_y is None && m.params.modifiers is None
            &&& opt_string(m.params.button) == Some(shown@)
            &&& m.reply.view().bool_at("moved"@) == Some(true)
        },
{
    if let Ok(m) = r {
        lemma_field_found(m.reply.view()->Object_0, "moved"@, 0);
    }
}

/// A button goes down and up where the mouse stands, as one click of the button that the
/// command names, the left one by default: it is then held, or free, and the others are as
/// they were.
pub proof fn law_button_goes_down_and_up(
    cmd: &Json,
    browser: &Browser,
    a: &mut MouseState,
    down: Result<MouseExchange, String>,
    b: &mut MouseState,
    up: Result<MouseExchange, String>,
    name: &str,
    bit: i32,
    others: i32,
)
    requires
        others & bit == 0,
        call_ensures(handle_mousedown, (cmd, browser, a), down),
        call_ensures(handle_mouseup, (cmd, browser, b), up),
        cmd.view().str_at("button"@) matches Some(n) ==> name@ == n,
        cmd.view().str_at("button"@) is None ==> name@ == "left"@,
        call_ensures(mouse_button_mask, (name,), bit),
    ensures
        down is Ok <==> browser is Session,
        up is Ok <==> browser is Session,
        down matches Err(e) ==> e@ == refusal(*browser),
        up matches Err(e) ==> e@ == refusal(*browser),
        down is Err ==> *final(a) == *old(a),
        up is Err ==> *final(b) == *old(b),
        down matches Ok(m) ==> {
            &&& m.params.event_type@ == "mousePressed"@
            &&& m.session@ == browser->Session_0@
            &&& opt_string(m.params.button) == Some(name@)
            &&& m.params.click_count == Some(1i32)
            &&& m.params.x == old(a).x && m.params.y == old(a).y
            &&& final(a).x == old(a).x && final(a).y == old(a).y
            &&& bit != 0 ==> final(a).buttons & bit != 0
            &&& bit == 0 ==> final(a).buttons == old(a).buttons
            &&& final(a).buttons & others == old(a).buttons & others
            &&& m.params.buttons == Some(final(a).buttons)
            &&& m.params.delta_x is None && m.params.delta_y is None && m.params.modifiers is None
            &&& m.reply.view().bool_at("pressed"@) == Some(true)
        },
        up matches Ok(m) ==> {
            &&& m.params.event_type@ == "mouseReleased"@
            &&& m.session@ == browser->Session_0@
            &&& opt_string(m.params.button) == Some(name@)
            &&& m.params.click_count == Some(1i32)
            &&& m.params.x == old(b).x && m.params.y == old(b).y
            &&& final(b).x == old(b).x && final(b).y == old(b).y
            &&& final(b).buttons & bit == 0
            &&& final(b).buttons & others == old(b).buttons & others
            &&& m.params.buttons == Some(final(b).buttons)
            &&& m.params.delta_x is None && m.params.delta_y is None && m.params.modifiers is None
            &&& m.reply.view().bool_at("released"@) == Some(true)
        },
{
    let h = old(a).buttons;
    let k = old(b).buttons;
    assert(bit == 0 || bit == 1 || bit == 2 || bit == 4 || bit == 8 || bit == 16);
    assert((bit == 1 || bit == 2 || bit == 4 || bit == 8 || bit == 16) ==> (h | bit) & bit != 0)
        by (bit_vector);
    assert(bit == 0 ==> (h | bit) == h) by (bit_vector);
    assert((k & !bit) & bit == 0) by (bit_vector);
    assert(others & bit == 0 ==> (h | bit) & others == h & others) by (bit_vector);
    assert(others & bit == 0 ==> (k & !bit) & others == k & others) by (bit_vector);
    if let Ok(m) = down {
        lemma_field_found(m.reply.view()->Object_0, "pressed"@, 0);
    }
    if let Ok(m) = up {
        lemma_field_found(m.reply.view()->Object_0, "released"@, 0);
    }
}

proof fn lemma_key_names()
    ensures
        "type"@ != "key"@,
        "type"@ != "code"@,
        "type"@ != "text"@,
        "type"@ != "touchPoints"@,
        "key"@ != "code"@,
        "key"@ != "text"@,
        "code"@ != "text"@,
{
    reveal_strlit("type");
    reveal_strlit("key");
    reveal_strlit("code");
    reveal_strlit("text");
    reveal_strlit("touchPoints");
    assert("type"@.len() == 4 && "key"@.len() == 3 && "code"@.len() == 4 && "text"@.len() == 4
        && "touchPoints"@.len() == 11);
    assert("type"@[0] == 't' && "code"@[0] == 'c' && "text"@[1] == 'e' && "type"@[1] == 'y');
}

/// The keyboard event that a command describes is dispatched in the active session: of its
/// type, `keyDown` by default, with its key, code and text where it has them and without
/// them where it has not.
pub proof fn law_described_key_event_is_dispatched(
    cmd: &Json,
    browser: &Browser,
    r: Result<Exchange, String>,
)
    requires
        call_ensures(handle_input_keyboard, (cmd, browser), r),
    ensures
        r is Ok <==> browser is Session,
        r matches Err(e) ==> e@ == refusal(*browser),
        r matches Ok(x) ==> {
            let c = cmd.view();
            let p = x.command.view().params->Some_0;
            let kind = match c.str_at("type"@) {
                Some(t) => t,
                None => "keyDown"@,
            };
            &&& x.command.method@ == "Input.dispatchKeyEvent"@
            &&& opt_string(x.command.session) == Some(browser->Session_0@)
            &&& x.command.view().params is Some
            &&& p.str_at("type"@) == Some(kind)
            &&& p.get("key"@) == c.get("key"@)
            &&& p.get("code"@) == c.get("code"@)
            &&& p.get("text"@) == c.get("text"@)
            &&& x.reply.view().str_at("dispatched"@) == Some(kind)
        },
{
    if let Ok(x) = r {
        lemma_key_names();
        let c = cmd.view();
        let f = x.command.view().params->Some_0->Object_0;
        lemma_field_found(x.reply.view()->Object_0, "dispatched"@, 0);
        lemma_field_found(f, "type"@, 0);
        let i: int = 1;
        let j: int = if c.get("key"@) is Some {
            2
        } else {
            1
        };
        let k: int = if c.get("code"@) is Some {
            j + 1
        } else {
            j
        };
        lemma_field_found(
            f,
            "key"@,
            if c.get("key"@) is Some {
                i
            } else {
                f.len() as int
            },
        );
        lemma_field_found(
            f,
            "code"@,
            if c.get("code"@) is Some {
                j
            } else {
                f.len() as int
            },
        );
        lemma_field_found(
            f,
            "text"@,
            if c.get("text"@) is Some {
                k
            } else {
                f.len() as int
            },
        );
    }
}

/// The touch event that a command describes is dispatched in the active session: of its
/// type, `touchStart` by default, with its touch points, none by default.
pub proof fn law_described_touch_event_is_dispatched(
    cmd: &Json,
    browser: &Browser,
    r: Result<Exchange, String>,
)
    requires
        call_ensures(handle_input_touch, (cmd, browser), r),
    ensures
        r is Ok <==> browser is Session,
        r matches Err(e) ==> e@ == refusal(*browser),
        r matches Ok(x) ==> {
            let c = cmd.view();
            let p = x.command.view().params->Some_0;
            let kind = match c.str_at("type"@) {
                Some(t) => t,
                None => "touchStart"@,
            };
            &&& x.command.method@ == "Input.dispatchTouchEvent"@
            &&& opt_string(x.command.session) == Some(browser->Session_0@)
            &&& x.command.view().params is Some
            &&& p.str_at("type"@) == Some(kind)
            &&& c.get("touchPoints"@) is Some ==> p.get("touchPoints"@) == c.get("touchPoints"@)
            &&& c.get("touchPoints"@) is None ==> (p.get("touchPoints"@) matches Some(
                JsonV::Array(points),
            ) && points.len() == 0)
            &&& x.reply.view().str_at("dispatched"@) == Some(kind)
        },
{
    if let Ok(x) = r {
        lemma_key_names();
        let f = x.command.view().params->Some_0->Object_0;
        lemma_field_found(x.reply.view()->Object_0, "dispatched"@, 0);
        lemma_field_found(f, "type"@, 0);
        lemma_field_found(f, "touchPoints"@, 1);
    }
}

/// The key that a command names is pressed and released in the active session, and the
/// text that it holds is inserted there; a command without a key or a text is refused.
pub proof fn law_keys_and_text_are_sent(
    cmd: &Json,
    browser: &Browser,
    down: Result<Exchange, String>,
    up: Result<Exchange, String>,
    text: Result<Exchange, String>,
)
    requires
        call_ensures(handle_keydown, (cmd, browser), down),
        call_ensures(handle_keyup, (cmd, browser), up),
        call_ensures(handle_inserttext, (cmd, browser), text),
    ensures
        down is Ok <==> browser is Session && cmd.view().str_at("key"@) is Some,
        up is Ok <==> browser is Session && cmd.view().str_at("key"@) is Some,
        text is Ok <==> browser is Session && cmd.view().str_at("text"@) is Some,
        down matches Err(e) ==> e@ == (if browser is Session {
            "Missing '"@ + "key"@ + "' parameter"@
        } else {
            refusal(*browser)
        }),
        up matches Err(e) ==> e@ == (if browser is Session {
            "Missing '"@ + "key"@ + "' parameter"@
        } else {
            refusal(*browser)
        }),
        text matches Err(e) ==> e@ == (if browser is Session {
            "Missing '"@ + "text"@ + "' parameter"@
        } else {
            refusal(*browser)
        }),
        down matches Ok(x) ==> {
            let p = x.command.view().params->Some_0;
            &&& x.command.method@ == "Input.dispatchKeyEvent"@ && x.command.view().params is Some
            &&& opt_string(x.command.session) == Some(browser->Session_0@)
            &&& p.str_at("type"@) == Some("keyDown"@)
            &&& p.str_at("key"@) == cmd.view().str_at("key"@)
            &&& x.reply.view().str_at("keydown"@) == cmd.view().str_at("key"@)
        },
        up matches Ok(x) ==> {
            let p = x.command.view().params->Some_0;
            &&& x.command.method@ == "Input.dispatchKeyEvent"@ && x.command.view().params is Some
            &&& opt_string(x.command.session) == Some(browser->Session_0@)
            &&& p.str_at("type"@) == Some("keyUp"@)
            &&& p.str_at("key"@) == cmd.view().str_at("key"@)
            &&& x.reply.view().str_at("keyup"@) == cmd.view().str_at("key"@)
        },
        text matches Ok(x) ==> {
            let p = x.command.view().params->Some_0;
            &&& x.command.method@ == "Input.insertText"@ && x.command.view().params is Some
            &&& opt_string(x.command.session) == Some(browser->Session_0@)
            &&& p.str_at("text"@) == cmd.view().str_at("text"@)
            &&& x.reply.view().bool_at("inserted"@) == Some(true)
        },
{
    lemma_key_names();
    if let Ok(x) = down {
        let f = x.command.view().params->Some_0->Object_0;
        lemma_field_found(f, "type"@, 0);
        lemma_field_found(f, "key"@, 1);
        lemma_field_found(x.reply.view()->Object_0, "keydown"@, 0);
    }
    if let Ok(x) = up {
        let f = x.command.view().params->Some_0->Object_0;
        lemma_field_found(f, "type"@, 0);
        lemma_field_found(f, "key"@, 1);
        lemma_field_found(x.reply.view()->Object_0, "keyup"@, 0);
    }
    if let Ok(x) = text {
        lemma_field_found(x.command.view().params->Some_0->Object_0, "text"@, 0);
        lemma_field_found(x.reply.view()->Object_0, "inserted"@, 0);
    }
}

} // verus!
