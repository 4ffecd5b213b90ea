use agent_browser::confirm::{Approvals, Pending};
use agent_browser::json::{Json, Num, Real};

fn convert(v: &serde_json::Value) -> Json {
    match v {
        serde_json::Value::Null => Json::Null,
        serde_json::Value::Bool(b) => Json::Bool(*b),
        serde_json::Value::Number(n) => Json::Number(if let Some(u) = n.as_u64() {
            Num::Unsigned(u)
        } else if let Some(i) = n.as_i64() {
            Num::Negative(i)
        } else {
            Num::Float(Real { bits: n.as_f64().unwrap().to_bits() })
        }),
        serde_json::Value::String(s) => Json::Str(s.clone()),
        serde_json::Value::Array(a) => Json::Array(a.iter().map(convert).collect()),
        serde_json::Value::Object(m) => {
            Json::Object(m.iter().map(|(k, v)| (k.clone(), convert(v))).collect())
        }
    }
}

fn parse(text: &str) -> Json {
    convert(&serde_json::from_str(text).unwrap())
}

fn show(j: &Json) -> String {
    match j {
        Json::Null => "null".to_string(),
        Json::Bool(b) => b.to_string(),
        Json::Number(Num::Unsigned(n)) => n.to_string(),
        Json::Number(Num::Negative(n)) => n.to_string(),
        Json::Number(Num::Float(x)) => format!("{:?}", f64::from_bits(x.bits)),
        Json::Str(s) => format!("{:?}", s),
        Json::Array(a) => format!("[{}]", a.iter().map(show).collect::<Vec<_>>().join(",")),
        Json::Object(o) => format!(
            "{{{}}}",
            o.iter().map(|(k, v)| format!("{:?}:{}", k, show(v))).collect::<Vec<_>>().join(",")
        ),
    }
}

fn waiting(approved: &[&str]) -> Approvals {
    Approvals {
        pending: Some(Pending {
            action: "eval".to_string(),
            cmd: parse("{\"action\":\"eval\"}"),
            approved_actions: approved.iter().map(|s| s.to_string()).collect(),
        }),
        confirmed: vec!["old".to_string()],
    }
}

#[test]
fn a_confirmation_is_for_one_command() {
    let mut a = waiting(&["click"]);
    let c = a.handle_confirm().unwrap();
    assert_eq!(a.confirmed, vec!["click", "eval"]);
    assert_eq!(a.pending, None);
    assert_eq!(c.action, "eval");
    assert_eq!(show(&c.cmd), "{\"action\":\"eval\"}");
    a.confirmed.push("more".to_string());
    let reply = a.finish_confirm(c, Json::truth(true));
    assert_eq!(a.confirmed, vec!["old"]);
    assert_eq!(show(&reply), "{\"confirmed\":true,\"action\":\"eval\",\"result\":true}");
    assert_eq!(a.handle_confirm().unwrap_err(), "No pending confirmation");
    assert_eq!(a.confirmed, vec!["old"]);
}

#[test]
fn an_approved_action_is_not_added_twice() {
    let mut a = waiting(&["eval", "click"]);
    a.handle_confirm().unwrap();
    assert_eq!(a.confirmed, vec!["eval", "click"]);
}

#[test]
fn a_denied_command_is_dropped() {
    let mut a = waiting(&[]);
    assert_eq!(show(&a.handle_deny().unwrap()), "{\"denied\":true,\"action\":\"eval\"}");
    assert_eq!(a.pending, None);
    assert_eq!(a.confirmed, vec!["old"]);
    assert_eq!(a.handle_deny().unwrap_err(), "No pending confirmation");
}
