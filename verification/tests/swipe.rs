use agent_browser::cdp::{Browser, CdpCommand};
use agent_browser::json::{Json, Num, Real};
use agent_browser::swipe::{
    handle_swipe, swipe_offsets, swipe_reply, swipe_steps, touch_command, Offset, SwipeDriver,
    SwipePath, TouchStep,
};

fn convert(v: &serde_json::Value) -> Json {
    match v {
        serde_json::Value::Null => Json::Null,
        serde_json::Value::Bool(b) => Json::Bool(*b),
        serde_json::Value::Number(n) => Json::Number(if let Some(u) = n.as_u64() {
            Num::Unsigned(u)
        } else if let Some(i) = n.as_i64() {
            Num::Negative(i)
        } else {
            Num::Float(Real { bits: n.as_f64().unwrap().to_bits() })
        }),
        serde_json::Value::String(s) => Json::Str(s.clone()),
        serde_json::Value::Array(a) => Json::Array(a.iter().map(convert).collect()),
        serde_json::Value::Object(m) => {
            Json::Object(m.iter().map(|(k, v)| (k.clone(), convert(v))).collect())
        }
    }
}

fn parse(text: &str) -> Json {
    convert(&serde_json::from_str(text).unwrap())
}

fn show(j: &Json) -> String {
    match j {
        Json::Null => "null".to_string(),
        Json::Bool(b) => b.to_string(),
        Json::Number(Num::Unsigned(n)) => n.to_string(),
        Json::Number(Num::Negative(n)) => n.to_string(),
        Json::Number(Num::Float(x)) => format!("{:?}", f64::from_bits(x.bits)),
        Json::Str(s) => format!("{:?}", s),
        Json::Array(a) => format!("[{}]", a.iter().map(show).collect::<Vec<_>>().join(",")),
        Json::Object(o) => format!(
            "{{{}}}",
            o.iter().map(|(k, v)| format!("{:?}:{}", k, show(v))).collect::<Vec<_>>().join(",")
        ),
    }
}

fn sent(c: &CdpCommand) -> String {
    format!(
        "{} {} {}",
        c.method,
        c.params.as_ref().map(show).unwrap_or_else(|| "-".to_string()),
        c.session.as_deref().unwrap_or("-")
    )
}

fn float(x: f64) -> Real {
    Real { bits: x.to_bits() }
}

#[test]
fn directions_give_offsets() {
    let d = Num::Unsigned(50);
    assert_eq!(swipe_offsets("up", d), (Offset::Zero, Offset::Minus(d)));
    assert_eq!(swipe_offsets("down", d), (Offset::Zero, Offset::Plus(d)));
    assert_eq!(swipe_offsets("left", d), (Offset::Minus(d), Offset::Zero));
    assert_eq!(swipe_offsets("right", d), (Offset::Plus(d), Offset::Zero));
    assert_eq!(swipe_offsets("sideways", d), (Offset::Zero, Offset::Minus(d)));
}

#[test]
fn swipes_have_defaults() {
    let (driver, s) = handle_swipe(&parse("{}"), true, &Browser::NotLaunched).unwrap();
    assert_eq!(driver, SwipeDriver::Mobile);
    assert_eq!((s.start_x, s.start_y), (Num::Unsigned(200), Num::Unsigned(400)));
    assert_eq!(s.path, SwipePath::To { x: Num::Unsigned(200), y: Num::Unsigned(100) });
    assert_eq!(s.duration_ms, 800);
}

#[test]
fn a_direction_goes_before_an_end_point() {
    let cmd = parse("{\"direction\":\"left\",\"endX\":1,\"distance\":20,\"duration\":5}");
    let b = Browser::Session("s".to_string());
    let (driver, s) = handle_swipe(&cmd, true, &b).unwrap();
    assert_eq!(driver, SwipeDriver::Touch("s".to_string()));
    assert_eq!(
        s.path,
        SwipePath::Toward {
            direction: "left".to_string(),
            dx: Offset::Minus(Num::Unsigned(20)),
            dy: Offset::Zero
        }
    );
    assert_eq!(s.duration_ms, 5);
}

#[test]
fn a_swipe_needs_a_driver() {
    assert_eq!(
        handle_swipe(&parse("{}"), false, &Browser::NotLaunched).unwrap_err(),
        "Browser not launched"
    );
    assert_eq!(
        handle_swipe(&parse("{}"), true, &Browser::NoSession("gone".to_string())).unwrap_err(),
        "gone"
    );
}

#[test]
fn moves_rise_to_the_end() {
    let steps = swipe_steps();
    assert_eq!(steps.len(), 22);
    assert_eq!(steps[0], TouchStep::Start);
    assert_eq!(steps[21], TouchStep::End);
    for i in 0..10 {
        assert_eq!(steps[1 + 2 * i], TouchStep::Move(i as u32 + 1));
        assert_eq!(steps[2 + 2 * i], TouchStep::Pause(16));
    }
}

#[test]
fn steps_send_touch_events() {
    let at = (float(1.0), float(2.5));
    assert_eq!(
        sent(&touch_command(&TouchStep::Start, at, "s").unwrap()),
        "Input.dispatchTouchEvent {\"type\":\"touchStart\",\"touchPoints\":[{\"x\":1.0,\"y\":2.5}]} s"
    );
    assert_eq!(
        sent(&touch_command(&TouchStep::Move(3), at, "s").unwrap()),
        "Input.dispatchTouchEvent {\"type\":\"touchMove\",\"touchPoints\":[{\"x\":1.0,\"y\":2.5}]} s"
    );
    assert_eq!(
        sent(&touch_command(&TouchStep::End, at, "s").unwrap()),
        "Input.dispatchTouchEvent {\"type\":\"touchEnd\",\"touchPoints\":[]} s"
    );
    assert_eq!(touch_command(&TouchStep::Pause(16), at, "s"), None);
}

#[test]
fn answers_to_swipes() {
    let from = (float(1.0), float(2.0));
    let to = (float(3.0), float(4.5));
    let toward =
        SwipePath::Toward { direction: "up".to_string(), dx: Offset::Zero, dy: Offset::Zero };
    assert_eq!(show(&swipe_reply(&toward, from, to)), "{\"swiped\":\"up\"}");
    let point = SwipePath::To { x: Num::Unsigned(3), y: Num::Unsigned(4) };
    assert_eq!(
        show(&swipe_reply(&point, from, to)),
        "{\"swiped\":true,\"from\":[1.0,2.0],\"to\":[3.0,4.5]}"
    );
}
