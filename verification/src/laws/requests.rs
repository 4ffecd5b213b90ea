//! Tracked requests: which are listed, and what is shown of one.
use vstd::prelude::*;
use vstd::string::*;
use vstd::utf8::*;

use crate::cdp::{Browser, CdpCommand};
use crate::json::{field, fields_view, items_view, lemma_field_found, opt_string, Json, JsonV};
use crate::laws::cdp::refusal;
use crate::number::{decimal, digit_char, is_digit, written_number};
use crate::outside::{base64_text, encodable, lowercase};
use crate::requests::{
    asked_types, cleared_reply, find_request, handle_http_credentials, handle_request_detail,
    handle_requests, has_id, law_class_filter, law_exact_filter, law_range_filter,
    law_selection_is_exact, matches_lowered_filter, matches_status_filter, meets_conditions,
    opt_cdp, requests_reply, response_body_command, select_requests, with_field, HeaderExchange,
    RequestsAction, TrackedRequest,
};
use crate::text::{
    ascii_lowered, cut_at, equal_ignoring_case, has_substring, lemma_first_index, pairs, pieces,
    texts, trimmed,
};

verus! {

/// One of the types that a text with commas names is the given one, whatever the case and
/// the white space around it.
pub open spec fn names_type(asked: Seq<char>, kind: Seq<char>) -> bool {
    exists|k: int|
        0 <= k < pieces(asked, seq![',']).len() && lowercase(
            trimmed(#[trigger] pieces(asked, seq![','])[k]),
        ) == lowercase(kind)
}

proof fn lemma_some_piece(s: Seq<char>, seps: Seq<char>)
    ensures
        pieces(s, seps).len() > 0,
    decreases s.len(),
{
    if s.len() > 0 {
        lemma_some_piece(s.drop_last(), seps);
    }
}

proof fn lemma_asked_type(cmd: JsonV, kind: Seq<char>)
    ensures
        cmd.str_at("type"@) is None ==> asked_types(cmd).len() == 0,
        cmd.str_at("type"@) matches Some(t) ==> asked_types(cmd).len() > 0 && (asked_types(
            cmd,
        ).contains(lowercase(kind)) <==> names_type(t, kind)),
{
    if let Some(t) = cmd.str_at("type"@) {
        let ps = pieces(t, seq![',']);
        let types = asked_types(cmd);
        lemma_some_piece(t, seq![',']);
        if types.contains(lowercase(kind)) {
            let k = choose|k: int| 0 <= k < types.len() && types[k] == lowercase(kind);
            assert(lowercase(trimmed(ps[k])) == lowercase(kind));
        }
        if names_type(t, kind) {
            let k = choose|k: int|
                0 <= k < ps.len() && lowercase(trimmed(#[trigger] ps[k])) == lowercase(kind);
            assert(types[k] == lowercase(kind));
        }
    }
}

/// A request that is listed is one of those that are tracked, and meets every condition
/// that the command sets, whatever others it sets.
pub proof fn law_listed_requests_meet_every_condition(
    list: &Vec<TrackedRequest>,
    cmd: &Json,
    r: Vec<usize>,
    status: &str,
    admitted: bool,
    i: usize,
)
    requires
        call_ensures(select_requests, (list, cmd), r),
        r@.contains(i),
        i < list@.len() ==> call_ensures(
            matches_status_filter,
            (list@[i as int].status, status),
            admitted,
        ),
    ensures
        i < list@.len(),
        cmd.view().str_at("filter"@) matches Some(f) ==> has_substring(list@[i as int].url@, f),
        cmd.view().str_at("type"@) matches Some(t) ==> names_type(
            t,
            list@[i as int].resource_type@,
        ),
        cmd.view().str_at("method"@) matches Some(m) ==> equal_ignoring_case(
            list@[i as int].method@,
            m,
        ),
        cmd.view().str_at("status"@) == Some(status@) ==> admitted,
{
    assert(list@.len() == list.len());
    law_selection_is_exact(list@, cmd.view());
    lemma_asked_type(cmd.view(), list@[i as int].resource_type@);
}

/// A tracked request that meets every condition that the command sets is listed.
pub proof fn law_matching_requests_are_listed(
    list: &Vec<TrackedRequest>,
    cmd: &Json,
    r: Vec<usize>,
    status: &str,
    admitted: bool,
    i: usize,
)
    requires
        call_ensures(select_requests, (list, cmd), r),
        i < list@.len(),
        call_ensures(matches_status_filter, (list@[i as int].status, status), admitted),
        cmd.view().str_at("filter"@) matches Some(f) ==> has_substring(list@[i as int].url@, f),
        cmd.view().str_at("type"@) matches Some(t) ==> names_type(
            t,
            list@[i as int].resource_type@,
        ),
        cmd.view().str_at("method"@) matches Some(m) ==> equal_ignoring_case(
            list@[i as int].method@,
            m,
        ),
        cmd.view().str_at("status"@) matches Some(s) ==> s == status@ && admitted,
    ensures
        r@.contains(i),
{
    assert(list@.len() == list.len());
    law_selection_is_exact(list@, cmd.view());
    lemma_asked_type(cmd.view(), list@[i as int].resource_type@);
}

/// The listed requests stand in the order in which they are tracked, each once.
pub proof fn law_listed_requests_keep_their_order(
    list: &Vec<TrackedRequest>,
    cmd: &Json,
    r: Vec<usize>,
    a: int,
    b: int,
)
    requires
        call_ensures(select_requests, (list, cmd), r),
        0 <= a < b < r@.len(),
    ensures
        r@[a] < r@[b],
{
    assert(list@.len() == list.len());
    law_selection_is_exact(list@, cmd.view());
}

/// A condition only takes requests away: a command that agrees with another on all the
/// conditions that the other sets lists no request that the other does not.
pub proof fn law_conditions_only_narrow(
    list: &Vec<TrackedRequest>,
    wide: &Json,
    narrow: &Json,
    r: Vec<usize>,
    s: Vec<usize>,
    i: usize,
)
    requires
        call_ensures(select_requests, (list, wide), r),
        call_ensures(select_requests, (list, narrow), s),
        wide.view().str_at("filter"@) is None || wide.view().str_at("filter"@)
            == narrow.view().str_at("filter"@),
        wide.view().str_at("type"@) is None || wide.view().str_at("type"@)
            == narrow.view().str_at("type"@),
        wide.view().str_at("method"@) is None || wide.view().str_at("method"@)
            == narrow.view().str_at("method"@),
        wide.view().str_at("status"@) is None || wide.view().str_at("status"@)
            == narrow.view().str_at("status"@),
        s@.contains(i),
    ensures
        r@.contains(i),
{
    assert(list@.len() == list.len());
    law_selection_is_exact(list@, wide.view());
    law_selection_is_exact(list@, narrow.view());
}

/// A request meets conditions only where it meets each of them by itself, and does where
/// it meets each.
pub proof fn law_conditions_hold_together(
    q: &TrackedRequest,
    kind: &str,
    url_part: Option<&str>,
    types: &Vec<String>,
    method: Option<&str>,
    status: Option<&str>,
    none: &Vec<String>,
    all: bool,
    by_url: bool,
    by_type: bool,
    by_method: bool,
    by_status: bool,
)
    requires
        none@.len() == 0,
        call_ensures(meets_conditions, (q, kind, url_part, types, method, status), all),
        call_ensures(meets_conditions, (q, kind, url_part, none, None, None), by_url),
        call_ensures(meets_conditions, (q, kind, None, types, None, None), by_type),
        call_ensures(meets_conditions, (q, kind, None, none, method, None), by_method),
        call_ensures(meets_conditions, (q, kind, None, none, None, status), by_status),
    ensures
        all <==> by_url && by_type && by_method && by_status,
        by_url <==> (url_part is None || has_substring(q.url@, url_part->Some_0@)),
        by_type <==> (types@.len() == 0 || texts(types@).contains(kind@)),
        by_method <==> (method is None || equal_ignoring_case(q.method@, method->Some_0@)),
{
    assert(texts(none@).len() == 0);
    assert(texts(types@).len() == types@.len());
}

/// A request without a status meets no status filter.
pub proof fn law_no_status_meets_no_filter(f: &str, lowered: bool, any_case: bool)
    requires
        call_ensures(matches_lowered_filter, (None, f), lowered),
        call_ensures(matches_status_filter, (None, f), any_case),
    ensures
        !lowered,
        !any_case,
{
}

/// A status filter that is a number is met by that status alone; one that is a digit and
/// `xx` by the hundred that begins with it; one that is two numbers with `-` between them
/// by what lies between them, and the two themselves.
pub proof fn law_status_filters(code: i64, f: &str, r: bool, n: nat, m: nat)
    requires
        call_ensures(matches_lowered_filter, (Some(code), f), r),
        n <= i64::MAX,
        m <= i64::MAX,
    ensures
        f@ == decimal(n) ==> (r <==> code == n),
        f@ == seq![digit_char(n), 'x', 'x'] && n <= 9 && 0 <= code ==> (r <==> n * 100 <= code
            < n * 100 + 100),
        f@ == seq![digit_char(n), 'x', 'x'] && n <= 9 && code < 0 ==> (r <==> n == 0 && -100
            < code),
        f@ == decimal(n).push('-') + decimal(m) ==> (r <==> n <= code <= m),
{
    law_exact_filter(code, n);
    law_range_filter(code, n, m);
    if n <= 9 && 0 <= code {
        law_class_filter(code, n);
    }
    if f@ == seq![digit_char(n), 'x', 'x'] && n <= 9 && code < 0 {
        assert(f@[1] == 'x' && !is_digit(f@[1]));
        assert(f@[0] == digit_char(n) && is_digit(f@[0]));
    }
}

/// A text that is no number, no class and has no `-` is a filter that nothing meets.
pub proof fn law_other_filters_admit_nothing(status: Option<i64>, f: &str, r: bool)
    requires
        call_ensures(matches_lowered_filter, (status, f), r),
        written_number(f@) is None,
        !(f@.len() == 3 && f@[1] == 'x' && f@[2] == 'x'),
        !f@.contains('-'),
    ensures
        !r,
{
    lemma_no_cut(f@, '-');
}

proof fn lemma_no_cut(s: Seq<char>, c: char)
    requires
        !s.contains(c),
    ensures
        crate::text::first_index(s, c) == s.len(),
        cut_at(s, c) is None,
    decreases s.len(),
{
    if s.len() > 0 {
        assert(s[0] != c);
        assert(!s.skip(1).contains(c)) by {
            if s.skip(1).contains(c) {
                let k = choose|k: int| 0 <= k < s.skip(1).len() && s.skip(1)[k] == c;
                assert(s[k + 1] == c);
            }
        }
        lemma_no_cut(s.skip(1), c);
    }
}

/// The case of ASCII letters in a status filter does not count.
pub proof fn law_filter_case_does_not_count(
    status: Option<i64>,
    f: &str,
    lowered: &str,
    r: bool,
    s: bool,
)
    requires
        is_ascii_chars(f@),
        lowered@ == ascii_lowered(f@),
        call_ensures(matches_status_filter, (status, f), r),
        call_ensures(matches_lowered_filter, (status, lowered), s),
    ensures
        r == s,
{
}

/// A command that asks to clear does nothing else; any other lists the requests that meet
/// its conditions, and starts tracking where that was not done yet.
pub proof fn law_requests_are_listed_and_tracked(
    cmd: &Json,
    tracking: bool,
    browser: &Browser,
    list: &Vec<TrackedRequest>,
    r: RequestsAction,
    s: Vec<usize>,
)
    requires
        call_ensures(handle_requests, (cmd, tracking, browser, list), r),
        call_ensures(select_requests, (list, cmd), s),
    ensures
        r is Clear <==> cmd.view().bool_at("clear"@) == Some(true),
        r matches RequestsAction::Show { start_tracking, enable, selected } ==> {
            &&& selected@ == s@
            &&& start_tracking == !tracking
            &&& tracking ==> enable is None
            &&& !(browser is Session) ==> enable is None
            &&& !tracking && browser is Session ==> enable is Some && enable->Some_0.method@
                == "Network.enable"@ && enable->Some_0.params is None && opt_string(
                enable->Some_0.session,
            ) == Some(browser->Session_0@)
        },
{
    if let RequestsAction::Show { start_tracking, enable, selected } = r {
        assert(selected@ == s@);
        if !tracking && browser is Session {
            assert(opt_cdp(enable) is Some);
            assert(enable is Some);
        }
    }
}

/// The request that is found is the first one with the id that the command names; where
/// none is found, none has it.
pub proof fn law_request_is_found_by_its_id(
    cmd: &Json,
    list: &Vec<TrackedRequest>,
    r: Result<usize, String>,
    j: int,
)
    requires
        call_ensures(find_request, (cmd, list), r),
        0 <= j < list@.len(),
    ensures
        cmd.view().str_at("requestId"@) is None ==> (r matches Err(e) && e@ == "Missing '"@
            + "requestId"@ + "' parameter"@),
        cmd.view().str_at("requestId"@) matches Some(id) ==> {
            &&& list@[j].request_id@ == id ==> r is Ok && r->Ok_0 <= j
            &&& r matches Ok(i) ==> i < list@.len() && list@[i as int].request_id@ == id
            &&& r matches Err(e) ==> e@ == "Request not found"@
        },
{
    if let Some(id) = cmd.view().str_at("requestId"@) {
        assert(has_id(list@[j], id) == (list@[j].request_id@ == id));
    }
}

proof fn lemma_field_set(fields: Seq<(Seq<char>, JsonV)>, key: Seq<char>, value: JsonV)
    ensures
        field(with_field(fields, key, value), key) == Some(value),
        forall|other: Seq<char>|
            other != key ==> #[trigger] field(with_field(fields, key, value), other) == field(
                fields,
                other,
            ),
    decreases fields.len(),
{
    let out = with_field(fields, key, value);
    if fields.len() == 0 {
        assert forall|other: Seq<char>| other != key implies #[trigger] field(out, other) == field(
            fields,
            other,
        ) by {
            reveal_with_fuel(field, 2);
            assert(out.skip(1).len() == 0);
        }
    } else if fields[0].0 == key {
        assert forall|other: Seq<char>| other != key implies #[trigger] field(out, other) == field(
            fields,
            other,
        ) by {
            assert(out.skip(1) == fields.skip(1));
        }
    } else {
        let rest = with_field(fields.skip(1), key, value);
        lemma_field_set(fields.skip(1), key, value);
        assert(out[0] == fields[0]);
        assert(out.skip(1) == rest);
        assert forall|other: Seq<char>| other != key implies #[trigger] field(out, other) == field(
            fields,
            other,
        ) by {
            assert(field(rest, other) == field(fields.skip(1), other));
        }
    }
}

/// What is shown of a request holds all that is tracked of it, and, where the browser has
/// answered, the body of its response: a text as it is, encoded data by its length only.
pub proof fn law_detail_shows_the_request_and_its_body(
    entry: Vec<(String, Json)>,
    body: Option<&Json>,
    r: Json,
    key: Seq<char>,
)
    requires
        call_ensures(handle_request_detail, (entry, body), r),
    ensures
        key != "responseBody"@ || body is None ==> r.view().get(key) == field(
            fields_view(entry@),
            key,
        ),
        body matches Some(b) ==> {
            let text = b.view().str_at("body"@);
            let encoded = b.view().bool_at("base64Encoded"@) == Some(true);
            let shown = r.view().str_at("responseBody"@);
            &&& !encoded && text is Some ==> shown == text
            &&& !encoded && text is None ==> shown is Some && shown->Some_0.len() == 0
            &&& encoded && text is Some ==> shown == Some(
                "[base64, "@ + decimal(encode_utf8(text->Some_0).len()) + " chars]"@,
            )
            &&& encoded && text is None ==> shown == Some(
                "[base64, "@ + decimal(encode_utf8(Seq::<char>::empty()).len()) + " chars]"@,
            )
        },
{
    if let Some(b) = body {
        let value = JsonV::Str(crate::requests::shown_body(b.view()));
        lemma_field_set(fields_view(entry@), "responseBody"@, value);
    }
}

/// Credentials go out as one header: the user name and the password with a colon between
/// them, in base64.
pub proof fn law_credentials_are_sent_as_basic_authorization(
    cmd: &Json,
    browser: &Browser,
    r: Result<HeaderExchange, String>,
)
    requires
        call_ensures(handle_http_credentials, (cmd, browser), r),
    ensures
        r matches Ok(x) ==> {
            let user = cmd.view().str_at("username"@);
            let password = cmd.view().str_at("password"@);
            &&& browser is Session && x.session@ == browser->Session_0@
            &&& user is Some && password is Some
            &&& x.headers@.len() == 1
            &&& x.headers@[0].0@ == "Authorization"@
            &&& x.headers@[0].1@ == "Basic "@ + base64_text(
                encode_utf8(user->Some_0 + ":"@ + password->Some_0),
            )
            &&& x.reply.view().bool_at("set"@) == Some(true)
        },
        r is Err ==> !(browser is Session) || cmd.view().str_at("username"@) is None
            || cmd.view().str_at("password"@) is None || !encodable(
            encode_utf8(
                cmd.view().str_at("username"@)->Some_0 + ":"@ + cmd.view().str_at(
                    "password"@,
                )->Some_0,
            ),
        ),
        !(browser is Session) ==> (r matches Err(e) && e@ == refusal(*browser)),
        browser is Session && cmd.view().str_at("username"@) is None ==> (r matches Err(e) && e@
            == "Missing '"@ + "username"@ + "' parameter"@),
        browser is Session && cmd.view().str_at("username"@) is Some && cmd.view().str_at(
            "password"@,
        ) is None ==> (r matches Err(e) && e@ == "Missing '"@ + "password"@ + "' parameter"@),
        browser is Session && cmd.view().str_at("username"@) is Some && cmd.view().str_at(
            "password"@,
        ) is Some ==> (r matches Err(e) ==> e@ == "Credentials too long"@),
{
    if let Ok(x) = r {
        assert(pairs(x.headers@).len() == x.headers@.len());
        assert(pairs(x.headers@)[0] == (x.headers@[0].0@, x.headers@[0].1@));
        lemma_field_found(x.reply.view()->Object_0, "set"@, 0);
    }
}

/// The tracked requests are answered as a list, or that they are forgotten; the body of a
/// response is asked for in its session, by the id of the request.
pub proof fn law_requests_are_answered(
    cleared: Json,
    shown: Vec<Json>,
    listed: Json,
    id: &str,
    session: &str,
    c: CdpCommand,
)
    requires
        call_ensures(cleared_reply, (), cleared),
        call_ensures(requests_reply, (shown,), listed),
        call_ensures(response_body_command, (id, session), c),
    ensures
        cleared.view().bool_at("cleared"@) == Some(true),
        listed.view().get("requests"@) == Some(JsonV::Array(items_view(shown@))),
        c.method@ == "Network.getResponseBody"@,
        opt_string(c.session) == Some(session@),
        c.view().params is Some && c.view().params->Some_0.str_at("requestId"@) == Some(id@),
{
    lemma_field_found(cleared.view()->Object_0, "cleared"@, 0);
    lemma_field_found(listed.view()->Object_0, "requests"@, 0);
    lemma_field_found(c.view().params->Some_0->Object_0, "requestId"@, 0);
}

/// A filter that is neither a number nor a class is cut at its first `-`: it admits what
/// lies between the two numbers, and nothing where one of them is none.
pub proof fn law_other_filters_are_ranges(
    code: i64,
    f: &str,
    r: bool,
    lo: Seq<char>,
    hi: Seq<char>,
)
    requires
        call_ensures(matches_lowered_filter, (Some(code), f), r),
        written_number(f@) is None,
        !(f@.len() == 3 && f@[1] == 'x' && f@[2] == 'x'),
        f@ == lo.push('-') + hi,
        !lo.contains('-'),
    ensures
        r <==> (written_number(lo) is Some && written_number(hi) is Some && written_number(
            lo,
        )->Some_0 <= code <= written_number(hi)->Some_0),
{
    let n = lo.len() as int;
    assert(f@[n] == '-');
    assert forall|j: int| 0 <= j < n implies f@[j] != '-' by {
        assert(f@[j] == lo[j]);
    }
    lemma_first_index(f@, '-', n);
    assert(f@.take(n) == lo);
    assert(f@.skip(n + 1) == hi);
}

} // verus!
