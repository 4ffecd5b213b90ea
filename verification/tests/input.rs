use agent_browser::cdp::{Browser, CdpCommand};
use agent_browser::input::{
    build_mouse_event_params, handle_input_keyboard, handle_input_mouse, handle_input_touch,
    handle_inserttext, handle_keydown, handle_keyup, handle_mousedown, handle_mousemove,
    handle_mouseup, mouse_button_mask, primary_button_from_mask, MouseState,
};
use agent_browser::json::{Json, Num, Real};

fn convert(v: &serde_json::Value) -> Json {
    match v {
        serde_json::Value::Null => Json::Null,
        serde_json::Value::Bool(b) => Json::Bool(*b),
        serde_json::Value::Number(n) => Json::Number(if let Some(u) = n.as_u64() {
            Num::Unsigned(u)
        } else if let Some(i) = n.as_i64() {
            Num::Negative(i)
        } else {
            Num::Float(Real { bits: n.as_f64().unwrap().to_bits() })
        }),
        serde_json::Value::String(s) => Json::Str(s.clone()),
        serde_json::Value::Array(a) => Json::Array(a.iter().map(convert).collect()),
        serde_json::Value::Object(m) => {
            Json::Object(m.iter().map(|(k, v)| (k.clone(), convert(v))).collect())
        }
    }
}

fn parse(text: &str) -> Json {
    convert(&serde_json::from_str(text).unwrap())
}

fn show(j: &Json) -> String {
    match j {
        Json::Null => "null".to_string(),
        Json::Bool(b) => b.to_string(),
        Json::Number(Num::Unsigned(n)) => n.to_string(),
        Json::Number(Num::Negative(n)) => n.to_string(),
        Json::Number(Num::Float(x)) => format!("{:?}", f64::from_bits(x.bits)),
        Json::Str(s) => format!("{:?}", s),
        Json::Array(a) => format!("[{}]", a.iter().map(show).collect::<Vec<_>>().join(",")),
        Json::Object(o) => format!(
            "{{{}}}",
            o.iter().map(|(k, v)| format!("{:?}:{}", k, show(v))).collect::<Vec<_>>().join(",")
        ),
    }
}

fn sent(c: &CdpCommand) -> String {
    format!(
        "{} {} {}",
        c.method,
        c.params.as_ref().map(show).unwrap_or_else(|| "-".to_string()),
        c.session.as_deref().unwrap_or("-")
    )
}

fn session() -> Browser {
    Browser::Session("s1".to_string())
}

fn at_rest() -> MouseState {
    MouseState { x: Num::Unsigned(5), y: Num::Unsigned(6), buttons: 0 }
}

#[test]
fn each_button_has_its_bit() {
    let all = [("left", 1), ("right", 2), ("middle", 4), ("back", 8), ("forward", 16)];
    for (name, bit) in all {
        assert_eq!(mouse_button_mask(name), bit);
        assert_eq!(primary_button_from_mask(bit), name);
    }
    assert_eq!(mouse_button_mask("none"), 0);
    assert_eq!(mouse_button_mask("Left"), 0);
}

#[test]
fn the_most_important_button_is_shown() {
    assert_eq!(primary_button_from_mask(0), "none");
    assert_eq!(primary_button_from_mask(6), "right");
    assert_eq!(primary_button_from_mask(24), "back");
    assert_eq!(primary_button_from_mask(31), "left");
    assert_eq!(primary_button_from_mask(32), "none");
    assert_eq!(primary_button_from_mask(-1), "left");
}

#[test]
fn a_release_undoes_a_press() {
    let mut m = at_rest();
    m.buttons = 2;
    build_mouse_event_params(
        &mut m, "mousePressed", None, None, Some("middle"), None, None, None, None, None,
    );
    assert_eq!(m.buttons, 6);
    build_mouse_event_params(
        &mut m, "mouseReleased", None, None, Some("middle"), None, None, None, None, None,
    );
    assert_eq!(m.buttons, 2);
}

#[test]
fn an_event_moves_the_mouse_on() {
    let mut m = at_rest();
    let p = build_mouse_event_params(
        &mut m,
        "mousePressed",
        Some(Num::Unsigned(9)),
        None,
        None,
        None,
        Some(2),
        None,
        Some(Num::Negative(-3)),
        Some(8),
    );
    assert_eq!((m.x, m.y, m.buttons), (Num::Unsigned(9), Num::Unsigned(6), 1));
    assert_eq!(p.button.as_deref(), Some("left"));
    assert_eq!((p.buttons, p.click_count, p.modifiers), (Some(1), Some(2), Some(8)));
    assert_eq!((p.delta_x, p.delta_y), (None, Some(Num::Negative(-3))));
}

#[test]
fn given_buttons_take_the_place_of_the_held_ones() {
    let mut m = at_rest();
    let p = build_mouse_event_params(
        &mut m, "mousePressed", None, None, None, Some(4), None, None, None, None,
    );
    assert_eq!(m.buttons, 4);
    assert_eq!(p.button.as_deref(), Some("middle"));
}

#[test]
fn a_mouse_command_sets_everything() {
    let mut m = at_rest();
    let cmd = parse("{\"type\":\"mouseWheel\",\"x\":1.5,\"deltaY\":-120,\"buttons\":4294967297,\"modifiers\":2}");
    let e = handle_input_mouse(&cmd, &session(), &mut m).unwrap();
    assert_eq!(e.session, "s1");
    assert_eq!(e.params.event_type, "mouseWheel");
    assert_eq!(m.x, Num::Float(Real { bits: 1.5f64.to_bits() }));
    assert_eq!(e.params.delta_y, Some(Num::Negative(-120)));
    assert_eq!(m.buttons, 1);
    assert_eq!(e.params.modifiers, Some(2));
    assert_eq!(show(&e.reply), "{\"dispatched\":\"mouseWheel\"}");
    let e = handle_input_mouse(&parse("{}"), &session(), &mut m).unwrap();
    assert_eq!(show(&e.reply), "{\"dispatched\":\"mouseMoved\"}");
}

#[test]
fn without_a_session_the_mouse_stays() {
    let mut m = at_rest();
    let cmd = parse("{\"x\":1,\"y\":2}");
    assert_eq!(
        handle_input_mouse(&cmd, &Browser::NotLaunched, &mut m).unwrap_err(),
        "Browser not launched"
    );
    assert_eq!(
        handle_mousemove(&cmd, &Browser::NoSession("no page".to_string()), &mut m).unwrap_err(),
        "no page"
    );
    assert!(handle_mousedown(&cmd, &Browser::NotLaunched, &mut m).is_err());
    assert!(handle_mouseup(&cmd, &Browser::NotLaunched, &mut m).is_err());
    assert_eq!((m.x, m.y, m.buttons), (Num::Unsigned(5), Num::Unsigned(6), 0));
}

#[test]
fn moves_presses_and_releases() {
    let mut m = at_rest();
    let e = handle_mousedown(&parse("{\"button\":\"right\"}"), &session(), &mut m).unwrap();
    assert_eq!(m.buttons, 2);
    assert_eq!(e.params.click_count, Some(1));
    assert_eq!(show(&e.reply), "{\"pressed\":true}");
    let e = handle_mousemove(&parse("{\"x\":3}"), &session(), &mut m).unwrap();
    assert_eq!((m.x, m.y, m.buttons), (Num::Unsigned(3), Num::Unsigned(0), 2));
    assert_eq!(e.params.button.as_deref(), Some("right"));
    assert_eq!(show(&e.reply), "{\"moved\":true}");
    let e = handle_mouseup(&parse("{\"button\":\"right\"}"), &session(), &mut m).unwrap();
    assert_eq!(m.buttons, 0);
    assert_eq!(e.params.event_type, "mouseReleased");
    assert_eq!(show(&e.reply), "{\"released\":true}");
}

#[test]
fn dispatches_keyboard_events() {
    let e = handle_input_keyboard(&parse("{\"code\":\"KeyA\",\"key\":\"a\",\"text\":7}"), &session())
        .unwrap();
    assert_eq!(
        sent(&e.command),
        "Input.dispatchKeyEvent {\"type\":\"keyDown\",\"key\":\"a\",\"code\":\"KeyA\",\"text\":7} s1"
    );
    assert_eq!(show(&e.reply), "{\"dispatched\":\"keyDown\"}");
    assert_eq!(
        handle_input_keyboard(&parse("{}"), &Browser::NotLaunched).unwrap_err(),
        "Browser not launched"
    );
}

#[test]
fn dispatches_touch_events() {
    let e = handle_input_touch(&parse("{}"), &session()).unwrap();
    assert_eq!(
        sent(&e.command),
        "Input.dispatchTouchEvent {\"type\":\"touchStart\",\"touchPoints\":[]} s1"
    );
    let e = handle_input_touch(&parse("{\"type\":\"touchMove\",\"touchPoints\":[{\"x\":1}]}"), &session())
        .unwrap();
    assert_eq!(
        sent(&e.command),
        "Input.dispatchTouchEvent {\"type\":\"touchMove\",\"touchPoints\":[{\"x\":1}]} s1"
    );
    assert_eq!(show(&e.reply), "{\"dispatched\":\"touchMove\"}");
}

#[test]
fn presses_and_releases_keys() {
    let e = handle_keydown(&parse("{\"key\":\"Enter\"}"), &session()).unwrap();
    assert_eq!(
        sent(&e.command),
        "Input.dispatchKeyEvent {\"type\":\"keyDown\",\"key\":\"Enter\"} s1"
    );
    assert_eq!(show(&e.reply), "{\"keydown\":\"Enter\"}");
    let e = handle_keyup(&parse("{\"key\":\"Enter\"}"), &session()).unwrap();
    assert_eq!(show(&e.reply), "{\"keyup\":\"Enter\"}");
    assert_eq!(
        handle_keyup(&parse("{\"key\":1}"), &session()).unwrap_err(),
        "Missing 'key' parameter"
    );
}

#[test]
fn inserts_text() {
    let e = handle_inserttext(&parse("{\"text\":\"hi\"}"), &session()).unwrap();
    assert_eq!(sent(&e.command), "Input.insertText {\"text\":\"hi\"} s1");
    assert_eq!(show(&e.reply), "{\"inserted\":true}");
    assert_eq!(
        handle_inserttext(&parse("{}"), &session()).unwrap_err(),
        "Missing 'text' parameter"
    );
    assert_eq!(
        handle_inserttext(&parse("{}"), &Browser::NotLaunched).unwrap_err(),
        "Browser not launched"
    );
}
