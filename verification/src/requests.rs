//! Tracked requests: selecting them, looking one up, showing a response body.
use vstd::prelude::*;
use vstd::string::*;
use vstd::utf8::*;

use crate::cdp::{bare_command, command, req_str, required, Browser, CdpCommand, CommandV};
use crate::json::{
    fields_view, items_view, lemma_fields_push, lemma_fields_view, opt_str, opt_string, or_else, seen, Fields,
    Json, JsonV,
};
use crate::number::{
    decimal, decimal_text, digit_char, is_digit, law_decimal_reads_back, lemma_decimal, parse_i64,
    written_number,
};
use crate::outside::{base64_of, base64_text, encodable, lowercase, to_lowercase};
use crate::text::{
    ascii_lowered, chars_of, contains, cut_at, equal_ignoring_case, has_substring, lemma_first_index,
    pairs, pieces, same, same_ignoring_case, split, split_once, texts, trim, trimmed,
};

verus! {

/// The hundreds of a status code, rounded towards zero.
pub open spec fn hundreds(code: int) -> int {
    if code >= 0 {
        code / 100
    } else {
        -((-code) / 100)
    }
}

/// The filter, in lower case, is met by a status code: the code itself; or a digit
/// and `xx` for its class; or a range of two numbers with `-` between them, both of
/// which belong to it. The first of these readings that fits counts.
pub open spec fn filter_admits(code: i64, f: Seq<char>) -> bool {
    match written_number(f) {
        Some(exact) => code == exact,
        None => if f.len() == 3 && is_digit(f[0]) && f[1] == 'x' && f[2] == 'x' {
            hundreds(code as int) == f[0] as int - '0' as int
        } else {
            match cut_at(f, '-') {
                Some((lo, hi)) => match (written_number(lo), written_number(hi)) {
                    (Some(lo), Some(hi)) => lo <= code <= hi,
                    _ => false,
                },
                None => false,
            }
        },
    }
}

/// A request without a status meets no filter.
pub open spec fn status_admitted(status: Option<i64>, f: Seq<char>) -> bool {
    match status {
        Some(code) => filter_admits(code, f),
        None => false,
    }
}

/// Whether a status meets a filter that is in lower case already.
pub fn matches_lowered_filter(status: Option<i64>, f: &str) -> (r: bool)
    ensures
        r == status_admitted(status, f@),
{
    let code = match status {
        Some(code) => code,
        None => {
            return false;
        },
    };
    match parse_i64(f) {
        Some(exact) => {
            return code == exact;
        },
        None => {},
    }
    let c = chars_of(f);
    if c.len() == 3 && '0' <= c[0] && c[0] <= '9' && c[1] == 'x' && c[2] == 'x' {
        let class: i64 = (c[0] as u32 - 48) as i64;
        let h: i64 = if code >= 0 {
            ((code as u64) / 100) as i64
        } else {
            -(((-(code as i128)) as u128 / 100) as i64)
        };
        return h == class;
    }
    match split_once(f, '-') {
        Some((lo, hi)) => match (parse_i64(lo), parse_i64(hi)) {
            (Some(lo), Some(hi)) => lo <= code && code <= hi,
            _ => false,
        },
        None => false,
    }
}

/// Whether a status meets a filter, in which the case of letters does not count.
pub fn matches_status_filter(status: Option<i64>, filter: &str) -> (r: bool)
    ensures
        r == status_admitted(status, lowercase(filter@)),
        is_ascii_chars(filter@) ==> r == status_admitted(
            status,
            ascii_lowered(filter@),
        ),
{
    let f = to_lowercase(filter);
    matches_lowered_filter(status, &f)
}

/// A status filter that is a number admits that status alone.
pub proof fn law_exact_filter(code: i64, n: nat)
    requires
        n <= i64::MAX,
    ensures
        filter_admits(code, decimal(n)) <==> code == n,
{
    law_decimal_reads_back(n);
}

/// A status filter that is a digit and `xx` admits the hundred that begins with it.
pub proof fn law_class_filter(code: i64, class: nat)
    requires
        0 <= code,
        class <= 9,
    ensures
        filter_admits(code, seq![digit_char(class), 'x', 'x']) <==> class * 100 <= code < (class
            + 1) * 100,
{
    let f = seq![digit_char(class), 'x', 'x'];
    assert(f[1] == 'x' && !is_digit(f[1]));
    assert(f[0] == digit_char(class) && is_digit(f[0]));
}

/// A status filter that is two numbers with `-` between them admits what lies between
/// them, and the two themselves.
pub proof fn law_range_filter(code: i64, lo: nat, hi: nat)
    requires
        lo <= i64::MAX,
        hi <= i64::MAX,
    ensures
        filter_admits(code, decimal(lo).push('-') + decimal(hi)) <==> lo <= code <= hi,
{
    let a = decimal(lo);
    let f = a.push('-') + decimal(hi);
    law_decimal_reads_back(lo);
    law_decimal_reads_back(hi);
    lemma_decimal(lo);
    let n = a.len() as int;
    assert forall|j: int| 0 <= j < n implies f[j] != '-' by {
        assert(f[j] == a[j]);
        assert(is_digit(a[j]));
    }
    assert(f[n] == '-' && !is_digit(f[n]));
    assert(is_digit(f[0])) by {
        assert(f[0] == a[0]);
    }
    lemma_first_index(f, '-', n);
    assert(f.take(n) == a);
    assert(f.skip(n + 1) == decimal(hi));
    if f.len() == 3 {
        assert(n == 1);
        assert(f[1] == '-');
    }
}

/// A request that the daemon keeps track of, as far as selecting it goes.
#[derive(PartialEq, Eq, Debug)]
pub struct TrackedRequest {
    pub request_id: String,
    pub url: String,
    pub method: String,
    pub resource_type: String,
    pub status: Option<i64>,
}

/// The resource types that a command asks for: the parts between commas, without the
/// white space around them, in lower case.
pub open spec fn asked_types(cmd: JsonV) -> Seq<Seq<char>> {
    match cmd.str_at("type"@) {
        Some(t) => pieces(t, seq![',']).map_values(|p: Seq<char>| lowercase(trimmed(p))),
        None => Seq::<Seq<char>>::empty(),
    }
}

/// The request meets the conditions: its URL holds the given part, its type is one
/// of those asked for, its method is the given one but for case, and its status
/// meets the filter. A condition that is not set holds of every request.
pub open spec fn meets(
    url: Seq<char>,
    method: Seq<char>,
    lowered_type: Seq<char>,
    status: Option<i64>,
    url_part: Option<Seq<char>>,
    types: Seq<Seq<char>>,
    method_asked: Option<Seq<char>>,
    lowered_filter: Option<Seq<char>>,
) -> bool {
    &&& url_part matches Some(f) ==> has_substring(url, f)
    &&& types.len() == 0 || types.contains(lowered_type)
    &&& method_asked matches Some(m) ==> equal_ignoring_case(method, m)
    &&& lowered_filter matches Some(s) ==> status_admitted(status, s)
}

/// The lower-case form of an optional text.
pub open spec fn opt_lowercase(s: Option<Seq<char>>) -> Option<Seq<char>> {
    match s {
        Some(s) => Some(lowercase(s)),
        None => None,
    }
}

/// The request meets the conditions that the command sets.
pub open spec fn meets_command(r: TrackedRequest, cmd: JsonV) -> bool {
    meets(
        r.url@,
        r.method@,
        lowercase(r.resource_type@),
        r.status,
        cmd.str_at("filter"@),
        asked_types(cmd),
        cmd.str_at("method"@),
        opt_lowercase(cmd.str_at("status"@)),
    )
}

/// The positions of the requests that meet the conditions of the command, in order.
pub open spec fn selection(list: Seq<TrackedRequest>, cmd: JsonV) -> Seq<usize>
    decreases list.len(),
{
    if list.len() == 0 {
        Seq::<usize>::empty()
    } else if meets_command(list.last(), cmd) {
        selection(list.drop_last(), cmd).push((list.len() - 1) as usize)
    } else {
        selection(list.drop_last(), cmd)
    }
}

fn lowered_types(cmd: &Json) -> (r: Vec<String>)
    ensures
        texts(r@) == asked_types(cmd.view()),
{
    let mut out: Vec<String> = Vec::new();
    assert(texts(out@) == Seq::<Seq<char>>::empty());
    match cmd.str_at("type") {
        Some(t) => {
            let seps: Vec<char> = vec![','];
            assert(seps@ == seq![',']);
            let parts = split(t, &seps);
            let ghost all = pieces(t@, seq![',']).map_values(
                |p: Seq<char>| lowercase(trimmed(p)),
            );
            assert(texts(out@) == all.take(0));
            for i in 0..parts.len()
                invariant
                    texts(parts@) == pieces(t@, seq![',']),
                    all == texts(parts@).map_values(|p: Seq<char>| lowercase(trimmed(p))),
                    texts(out@) == all.take(i as int),
            {
                let low = to_lowercase(trim(&parts[i]));
                let ghost before = texts(out@);
                out.push(low);
                assert(texts(out@) == before.push(low@));
                assert(all.take(i + 1) == all.take(i as int).push(all[i as int]));
            }
            assert(all.take(parts@.len() as int) == all);
        },
        None => {},
    }
    out
}

/// Whether a text is one of a list.
pub fn is_listed(list: &Vec<String>, text: &str) -> (r: bool)
    ensures
        r == texts(list@).contains(text@),
{
    let ghost t = texts(list@);
    for i in 0..list.len()
        invariant
            t == texts(list@),
            forall|j: int| 0 <= j < i ==> t[j] != text@,
    {
        assert(t[i as int] == list@[i as int]@);
        if same(&list[i], text) {
            return true;
        }
    }
    false
}

/// Whether a request meets the conditions, given its resource type and the status
/// filter in lower case.
pub fn meets_conditions(
    r: &TrackedRequest,
    lowered_type: &str,
    url_part: Option<&str>,
    types: &Vec<String>,
    method: Option<&str>,
    lowered_filter: Option<&str>,
) -> (ok: bool)
    ensures
        ok == meets(
            r.url@,
            r.method@,
            lowered_type@,
            r.status,
            opt_str(url_part),
            texts(types@),
            opt_str(method),
            opt_str(lowered_filter),
        ),
{
    match url_part {
        Some(f) => {
            if !contains(&r.url, f) {
                return false;
            }
        },
        None => {},
    }
    assert(texts(types@).len() == types@.len());
    if types.len() > 0 && !is_listed(types, lowered_type) {
        return false;
    }
    match method {
        Some(m) => {
            if !same_ignoring_case(&r.method, m) {
                return false;
            }
        },
        None => {},
    }
    match lowered_filter {
        Some(s) => matches_lowered_filter(r.status, s),
        None => true,
    }
}

/// The positions of the tracked requests that meet the conditions of a command.
pub fn select_requests(list: &Vec<TrackedRequest>, cmd: &Json) -> (r: Vec<usize>)
    ensures
        r@ == selection(list@, cmd.view()),
{
    let types = lowered_types(cmd);
    let lowered: Option<String> = match cmd.str_at("status") {
        Some(s) => Some(to_lowercase(s)),
        None => None,
    };
    let mut out: Vec<usize> = Vec::new();
    assert(list@.take(0).len() == 0);
    for i in 0..list.len()
        invariant
            texts(types@) == asked_types(cmd.view()),
            opt_string(lowered) == opt_lowercase(cmd.view().str_at("status"@)),
            out@ == selection(list@.take(i as int), cmd.view()),
    {
        let kind = to_lowercase(&list[i].resource_type);
        proof {
            assert(list@.take(i + 1).drop_last() == list@.take(i as int));
            assert(list@.take(i + 1).last() == list@[i as int]);
        }
        let status: Option<&str> = match &lowered {
            Some(s) => Some(s.as_str()),
            None => None,
        };
        if meets_conditions(
            &list[i],
            &kind,
            cmd.str_at("filter"),
            &types,
            cmd.str_at("method"),
            status,
        ) {
            out.push(i);
        }
    }
    assert(list@.take(list@.len() as int) == list@);
    out
}

/// What a command about the tracked requests asks for.
#[derive(PartialEq, Eq, Debug)]
pub enum RequestsAction {
    /// Forget all tracked requests.
    Clear,
    /// Start tracking, where that is not done yet, for which a command to the browser
    /// may be needed, and show the requests at these positions.
    Show { start_tracking: bool, enable: Option<CdpCommand>, selected: Vec<usize> },
}

/// The command that starts tracking: none where it has started, or where there is no
/// session to start it in.
pub open spec fn tracking_command(
    tracking: bool,
    session: Result<Seq<char>, Seq<char>>,
) -> Option<CommandV> {
    match session {
        Ok(s) => if tracking {
            None
        } else {
            Some(bare_command("Network.enable"@, s))
        },
        Err(_) => None,
    }
}

/// The contents of an optional command.
pub open spec fn opt_cdp(c: Option<CdpCommand>) -> Option<CommandV> {
    match c {
        Some(c) => Some(c.view()),
        None => None,
    }
}

/// What a command about the tracked requests asks for. Tracking starts with the first
/// command that does not ask to clear.
pub fn handle_requests(
    cmd: &Json,
    tracking: bool,
    browser: &Browser,
    list: &Vec<TrackedRequest>,
) -> (r: RequestsAction)
    ensures
        if or_else(cmd.view().bool_at("clear"@), false) {
            r is Clear
        } else {
            r matches RequestsAction::Show { start_tracking, enable, selected } && start_tracking
                == !tracking && opt_cdp(enable) == tracking_command(
                tracking,
                browser.session_view(),
            ) && selected@ == selection(list@, cmd.view())
        },
{
    let clear = match cmd.bool_at("clear") {
        Some(b) => b,
        None => false,
    };
    if clear {
        return RequestsAction::Clear;
    }
    let enable = if tracking {
        None
    } else {
        match browser.session() {
            Ok(s) => Some(CdpCommand::bare("Network.enable", &s)),
            Err(_) => None,
        }
    };
    RequestsAction::Show { start_tracking: !tracking, enable, selected: select_requests(list, cmd) }
}

/// The answer once the tracked requests are forgotten.
pub fn cleared_reply() -> (r: Json)
    ensures
        r.view() == JsonV::Object(seq![("cleared"@, JsonV::Bool(true))]),
{
    let f = Fields::new().with("cleared", Json::truth(true));
    assert(f.view() == seq![("cleared"@, JsonV::Bool(true))]);
    f.done()
}

/// The answer that shows some tracked requests.
pub fn requests_reply(shown: Vec<Json>) -> (r: Json)
    ensures
        r.view() == JsonV::Object(seq![("requests"@, JsonV::Array(items_view(shown@)))]),
{
    let f = Fields::new().with("requests", Json::Array(shown));
    assert(f.view() == seq![("requests"@, JsonV::Array(items_view(shown@)))]);
    f.done()
}

/// Exactly the requests that meet the conditions are selected, in their order.
pub proof fn law_selection_is_exact(list: Seq<TrackedRequest>, cmd: JsonV)
    requires
        list.len() <= usize::MAX,
    ensures
        forall|i: usize|
            selection(list, cmd).contains(i) <==> i < list.len() && meets_command(
                list[i as int],
                cmd,
            ),
        forall|a: int, b: int|
            0 <= a < b < selection(list, cmd).len() ==> selection(list, cmd)[a] < selection(
                list,
                cmd,
            )[b],
    decreases list.len(),
{
    let s = selection(list, cmd);
    if list.len() > 0 {
        let before = list.drop_last();
        let t = selection(before, cmd);
        law_selection_is_exact(before, cmd);
        let n = (list.len() - 1) as usize;
        assert forall|i: usize| s.contains(i) <==> i < list.len() && meets_command(
            list[i as int],
            cmd,
        ) by {
            if i < n {
                assert(before[i as int] == list[i as int]);
            }
            if t.contains(i) {
                let k = choose|k: int| 0 <= k < t.len() && t[k] == i;
                assert(s[k] == i);
            }
            if s.contains(i) {
                let k = choose|k: int| 0 <= k < s.len() && s[k] == i;
                if k < t.len() {
                    assert(t[k] == i);
                    assert(t.contains(i));
                }
            }
            if i == n && meets_command(list.last(), cmd) {
                assert(s[t.len() as int] == n);
            }
        }
        assert forall|a: int, b: int| 0 <= a < b < s.len() implies s[a] < s[b] by {
            if b == t.len() {
                assert(t.contains(t[a]));
            }
        }
    }
}

/// A command that sets no condition selects every request.
pub proof fn law_no_condition_selects_all(list: Seq<TrackedRequest>, cmd: JsonV, i: int)
    requires
        0 <= i < list.len(),
        cmd.str_at("filter"@) is None,
        cmd.str_at("type"@) is None,
        cmd.str_at("method"@) is None,
        cmd.str_at("status"@) is None,
    ensures
        meets_command(list[i], cmd),
{
}

/// The request has the given id.
pub open spec fn has_id(r: TrackedRequest, id: Seq<char>) -> bool {
    r.request_id@ == id
}

/// None of the first `n` requests has the given id.
pub open spec fn none_before(list: Seq<TrackedRequest>, n: int, id: Seq<char>) -> bool {
    forall|j: int| 0 <= j < n ==> !has_id(#[trigger] list[j], id)
}

/// The position of the first tracked request with the id that a command has to name.
pub fn find_request(cmd: &Json, list: &Vec<TrackedRequest>) -> (r: Result<usize, String>)
    ensures
        match required(cmd.view(), "requestId"@) {
            Err(e) => r is Err && r->Err_0@ == e,
            Ok(id) => match r {
                Ok(i) => i < list@.len() && has_id(list@[i as int], id) && none_before(
                    list@,
                    i as int,
                    id,
                ),
                Err(e) => e@ == "Request not found"@ && none_before(
                    list@,
                    list@.len() as int,
                    id,
                ),
            },
        },
{
    let id = match req_str(cmd, "requestId") {
        Ok(s) => s,
        Err(e) => {
            return Err(e);
        },
    };
    for i in 0..list.len()
        invariant
            required(cmd.view(), "requestId"@) == Ok::<Seq<char>, Seq<char>>(id@),
            forall|j: int| 0 <= j < i ==> !has_id(#[trigger] list@[j], id@),
    {
        if same(&list[i].request_id, &id) {
            return Ok(i);
        }
    }
    Err("Request not found".to_owned())
}

/// How the body of a response is shown: a text as it is, encoded data by its length
/// in bytes.
pub open spec fn shown_body(result: JsonV) -> Seq<char> {
    let body = or_else(result.str_at("body"@), Seq::<char>::empty());
    if or_else(result.bool_at("base64Encoded"@), false) {
        "[base64, "@ + decimal(encode_utf8(body).len()) + " chars]"@
    } else {
        body
    }
}

/// How the body of a response is shown.
pub fn response_body_text(result: &Json) -> (r: String)
    ensures
        r@ == shown_body(result.view()),
{
    let encoded = match result.bool_at("base64Encoded") {
        Some(b) => b,
        None => false,
    };
    let body: &str = match result.str_at("body") {
        Some(s) => s,
        None => {
            proof {
                reveal_strlit("");
            }
            assert(""@ == Seq::<char>::empty());
            ""
        },
    };
    if encoded {
        let bytes = body.as_bytes();
        let mut m = "[base64, ".to_owned();
        m.append(&decimal_text(bytes.len() as u128));
        m.append(" chars]");
        m
    } else {
        body.to_owned()
    }
}

/// The command that asks for the body of a response.
pub fn response_body_command(id: &str, session: &str) -> (r: CdpCommand)
    ensures
        r.view() == command(
            "Network.getResponseBody"@,
            JsonV::Object(seq![("requestId"@, JsonV::Str(id@))]),
            session@,
        ),
{
    let f = Fields::new().with("requestId", Json::text(id));
    assert(f.view() == seq![("requestId"@, JsonV::Str(id@))]);
    CdpCommand::new("Network.getResponseBody", f.done(), session)
}

/// The fields with the given value under a key: in the place of the one that was there,
/// or behind the others.
pub open spec fn with_field(
    fields: Seq<(Seq<char>, JsonV)>,
    key: Seq<char>,
    value: JsonV,
) -> Seq<(Seq<char>, JsonV)>
    decreases fields.len(),
{
    if fields.len() == 0 {
        seq![(key, value)]
    } else if fields[0].0 == key {
        seq![(key, value)] + fields.skip(1)
    } else {
        seq![fields[0]] + with_field(fields.skip(1), key, value)
    }
}

/// What is shown of a request: what is tracked of it, and the body of its response where
/// the browser has given one.
pub open spec fn detail(entry: Seq<(Seq<char>, JsonV)>, body: Option<JsonV>) -> JsonV {
    match body {
        Some(result) => JsonV::Object(
            with_field(entry, "responseBody"@, JsonV::Str(shown_body(result))),
        ),
        None => JsonV::Object(entry),
    }
}

proof fn lemma_with_field(
    fields: Seq<(Seq<char>, JsonV)>,
    key: Seq<char>,
    value: JsonV,
    i: int,
)
    requires
        0 <= i <= fields.len(),
        forall|j: int| 0 <= j < i ==> (#[trigger] fields[j]).0 != key,
        i < fields.len() ==> fields[i].0 == key,
    ensures
        with_field(fields, key, value) == if i < fields.len() {
            fields.update(i, (key, value))
        } else {
            fields.push((key, value))
        },
    decreases i,
{
    if i == 0 {
        if fields.len() > 0 {
            assert(seq![(key, value)] + fields.skip(1) == fields.update(0, (key, value)));
        } else {
            assert(fields.push((key, value)) == seq![(key, value)]);
        }
    } else {
        let rest = fields.skip(1);
        assert(fields[0].0 != key);
        assert forall|j: int| 0 <= j < i - 1 implies (#[trigger] rest[j]).0 != key by {
            assert(fields[j + 1].0 != key);
        }
        lemma_with_field(rest, key, value, i - 1);
        if i < fields.len() {
            assert(seq![fields[0]] + rest.update(i - 1, (key, value)) == fields.update(
                i,
                (key, value),
            ));
        } else {
            assert(seq![fields[0]] + rest.push((key, value)) == fields.push((key, value)));
        }
    }
}

/// What is shown of a request, given what is tracked of it as the fields of an object,
/// and what the browser has answered about the body of its response.
pub fn handle_request_detail(entry: Vec<(String, Json)>, body: Option<&Json>) -> (r: Json)
    ensures
        r.view() == detail(fields_view(entry@), seen(body)),
{
    let result = match body {
        Some(b) => b,
        None => {
            return Json::Object(entry);
        },
    };
    let text = Json::Str(response_body_text(result));
    let ghost value = text.view();
    let ghost key = "responseBody"@;
    let mut fields = entry;
    let ghost fv = fields_view(entry@);
    proof {
        lemma_fields_view(entry@);
    }
    let mut i: usize = 0;
    while i < fields.len()
        invariant
            i <= fields@.len(),
            fields@ == entry@,
            fv == fields_view(entry@),
            fv.len() == entry@.len(),
            forall|j: int|
                0 <= j < entry@.len() ==> #[trigger] fv[j] == (entry@[j].0@, entry@[j].1.view()),
            forall|j: int| 0 <= j < i ==> (#[trigger] fv[j]).0 != key,
            key == "responseBody"@,
            text.view() == value,
            value == JsonV::Str(shown_body(result.view())),
            seen(body) == Some(result.view()),
        decreases fields@.len() - i,
    {
        if same(&fields[i].0, "responseBody") {
            proof {
                lemma_with_field(fv, key, value, i as int);
            }
            let name = fields[i].0.clone();
            let pair = (name, text);
            fields.set(i, pair);
            proof {
                lemma_fields_view(fields@);
                assert(fields_view(fields@) == fv.update(i as int, (key, value)));
            }
            return Json::Object(fields);
        }
        i = i + 1;
    }
    proof {
        lemma_with_field(fv, key, value, i as int);
    }
    let name = "responseBody".to_owned();
    proof {
        lemma_fields_push(fields@, (name, text));
    }
    fields.push((name, text));
    Json::Object(fields)
}

/// The value of an `Authorization` header for a user name and a password.
pub open spec fn basic_authorization(username: Seq<char>, password: Seq<char>) -> Seq<char> {
    "Basic "@ + base64_text(encode_utf8(username + ":"@ + password))
}

/// Headers to send with every request of a session, and the answer once they are set.
#[derive(PartialEq, Eq, Debug)]
pub struct HeaderExchange {
    pub session: String,
    pub headers: Vec<(String, String)>,
    pub reply: Json,
}

/// The header that carries a user name and a password, to be set in the active session.
/// The command has to name both; an error comes too where they are too long together.
pub fn handle_http_credentials(cmd: &Json, browser: &Browser) -> (r: Result<
    HeaderExchange,
    String,
>)
    ensures
        match browser.session_view() {
            Err(e) => r matches Err(m) && m@ == e,
            Ok(session) => match (
                required(cmd.view(), "username"@),
                required(cmd.view(), "password"@),
            ) {
                (Err(e), _) => r matches Err(m) && m@ == e,
                (Ok(_), Err(e)) => r matches Err(m) && m@ == e,
                (Ok(u), Ok(p)) => if encodable(encode_utf8(u + ":"@ + p)) {
                    r matches Ok(x) && x.session@ == session && pairs(x.headers@) == seq![
                        ("Authorization"@, basic_authorization(u, p)),
                    ] && x.reply.view() == JsonV::Object(seq![("set"@, JsonV::Bool(true))])
                } else {
                    r matches Err(m) && m@ == "Credentials too long"@
                },
            },
        },
{
    let session = browser.session()?;
    let username = req_str(cmd, "username")?;
    let password = req_str(cmd, "password")?;
    let mut pair = username.clone();
    pair.append(":");
    pair.append(&password);
    match base64_of(&pair) {
        Some(encoded) => {
            let mut m = "Basic ".to_owned();
            m.append(&encoded);
            let mut headers: Vec<(String, String)> = Vec::new();
            headers.push(("Authorization".to_owned(), m));
            assert(pairs(headers@) == seq![
                ("Authorization"@, basic_authorization(username@, password@)),
            ]);
            let f = Fields::new().with("set", Json::truth(true));
            assert(f.view() == seq![("set"@, JsonV::Bool(true))]);
            Ok(HeaderExchange { session, headers, reply: f.done() })
        },
        None => Err("Credentials too long".to_owned()),
    }
}

} // verus!
