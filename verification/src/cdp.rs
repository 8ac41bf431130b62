//! Whether what answered on a debug port is a browser.

use crate::text;
use vstd::prelude::*;
use vstd::string::*;

verus! {

/// The string that serde_json finds under `key` in the JSON object `json`: none where `json` is no
/// JSON text, or no object, or holds no string under that key.
pub uninterp spec fn json_string_member(json: Seq<char>, key: Seq<char>) -> Option<Seq<char>>;

/// Reads a string member of a JSON object with serde_json: `from_str` into a `Value`, then
/// `Value::get` and `Value::as_str`. It claims that the outcome is a function of the text and the
/// key; which texts are JSON is left to the name `json_string_member`.
#[verifier::external_body]
fn json_member(json: &str, key: &str) -> (member: Option<String>)
    ensures
        member.deep_view() == json_string_member(json@, key@),
{
    let value: serde_json::Value = serde_json::from_str(json).ok()?;
    value.get(key)?.as_str().map(str::to_owned)
}

/// The body of an HTTP response that reports success: what follows the first empty line, where the
/// status line opens with version 1.1 or 1.0 and status 200.
pub open spec fn success_body(response: Seq<char>) -> Option<Seq<char>> {
    match text::find_in(response, "\r\n\r\n"@) {
        Some(end) => {
            let headers = response.take(end);
            if text::begins_with(headers, "HTTP/1.1 200"@) || text::begins_with(
                headers,
                "HTTP/1.0 200"@,
            ) {
                Some(response.skip(end + "\r\n\r\n"@.len()))
            } else {
                None
            }
        },
        None => None,
    }
}

/// A browser's answer to the version request: a success whose body names the browser and the
/// address of its debugger.
pub open spec fn is_version_answer(response: Seq<char>) -> bool {
    match success_body(response) {
        Some(body) => names_debugger(
            json_string_member(body, "Browser"@),
            json_string_member(body, "webSocketDebuggerUrl"@),
        ),
        None => false,
    }
}

/// A version report names both the browser and the address of its debugger.
pub open spec fn names_debugger(browser: Option<Seq<char>>, debugger: Option<Seq<char>>) -> bool {
    browser is Some && debugger is Some
}

/// The body of an HTTP response that reports success.
pub fn http_success_body(response: &str) -> (body: Option<String>)
    ensures
        body.deep_view() == success_body(response@),
{
    let chars = text::chars_of(response);
    let gap = text::chars_of("\r\n\r\n");
    proof {
        text::lemma_find_from(response@, "\r\n\r\n"@, 0);
    }
    let end = match text::find(chars.as_slice(), gap.as_slice()) {
        Some(end) => end,
        None => return None,
    };
    let headers = vstd::slice::slice_subrange(chars.as_slice(), 0, end);
    assert(headers@ =~= response@.take(end as int));
    if text::starts_with(headers, "HTTP/1.1 200") || text::starts_with(headers, "HTTP/1.0 200") {
        let total = chars.len();
        let body = response.substring_char(end + gap.len(), total).to_owned();
        assert(body@ =~= response@.skip(end + gap@.len()));
        Some(body)
    } else {
        None
    }
}

/// Whether a version report names both the browser and its debugger.
pub fn version_names_debugger(browser: &Option<String>, debugger: &Option<String>) -> (named: bool)
    ensures
        named == names_debugger(browser.deep_view(), debugger.deep_view()),
{
    browser.is_some() && debugger.is_some()
}

/// Whether a response to the version request comes from a browser.
pub fn is_cdp_version_response(response: &str) -> (active: bool)
    ensures
        active == is_version_answer(response@),
{
    match http_success_body(response) {
        Some(body) => version_names_debugger(
            &json_member(body.as_str(), "Browser"),
            &json_member(body.as_str(), "webSocketDebuggerUrl"),
        ),
        None => false,
    }
}

/// What is not a successful HTTP response is never taken for a browser.
pub proof fn law_only_success_is_a_browser(response: Seq<char>)
    requires
        !text::begins_with(response, "HTTP/1.1 200"@),
        !text::begins_with(response, "HTTP/1.0 200"@),
    ensures
        !is_version_answer(response),
{
    text::lemma_find_from(response, "\r\n\r\n"@, 0);
    if let Some(end) = text::find_in(response, "\r\n\r\n"@) {
        let headers = response.take(end);
        if text::begins_with(headers, "HTTP/1.1 200"@) {
            assert(response.subrange(0, "HTTP/1.1 200"@.len() as int) =~= headers.subrange(
                0,
                "HTTP/1.1 200"@.len() as int,
            ));
        }
        if text::begins_with(headers, "HTTP/1.0 200"@) {
            assert(response.subrange(0, "HTTP/1.0 200"@.len() as int) =~= headers.subrange(
                0,
                "HTTP/1.0 200"@.len() as int,
            ));
        }
    }
}

/// An empty line, written out.
proof fn lemma_empty_line()
    ensures
        "\r\n\r"@.len() == 3,
        "\r\n\r\n"@ == "\r\n\r"@.push('\n'),
{
    reveal_strlit("\r\n\r\n");
    reveal_strlit("\r\n\r");
    assert("\r\n\r\n"@ =~= "\r\n\r"@.push('\n'));
}

/// Behind headers that hold no empty line and do not run into one, the first empty line is found
/// where it stands.
proof fn lemma_headers_end(headers: Seq<char>, body: Seq<char>)
    requires
        !text::contains_text(headers + "\r\n\r"@, "\r\n\r\n"@),
    ensures
        text::find_in(headers + "\r\n\r\n"@ + body, "\r\n\r\n"@) == Some(headers.len() as int),
{
    lemma_empty_line();
    let gap = "\r\n\r\n"@;
    let whole = headers + gap + body;
    let open = headers + "\r\n\r"@;
    let place = headers.len() as int;
    assert(whole.subrange(place, place + 4) =~= gap);
    assert(text::occurs_at(whole, gap, place));
    text::lemma_find_from(whole, gap, 0);
    assert forall|j: int| 0 <= j < place implies !text::occurs_at(whole, gap, j) by {
        if text::occurs_at(whole, gap, j) {
            assert(open.subrange(j, j + 4) =~= whole.subrange(j, j + 4));
            assert(text::occurs_at(open, gap, j));
        }
    }
}

/// The answer to the version request comes from a browser exactly where its status is 200 and the
/// whole of what follows the first empty line, whatever its characters, is JSON with both names.
pub proof fn law_the_whole_body_is_judged(headers: Seq<char>, body: Seq<char>)
    requires
        !text::contains_text(headers + "\r\n\r"@, "\r\n\r\n"@),
    ensures
        is_version_answer(headers + "\r\n\r\n"@ + body) <==> (text::begins_with(
            headers,
            "HTTP/1.1 200"@,
        ) || text::begins_with(headers, "HTTP/1.0 200"@)) && json_string_member(
            body,
            "Browser"@,
        ) is Some && json_string_member(body, "webSocketDebuggerUrl"@) is Some,
        success_body(headers + "\r\n\r\n"@ + body) == if text::begins_with(
            headers,
            "HTTP/1.1 200"@,
        ) || text::begins_with(headers, "HTTP/1.0 200"@) {
            Some(body)
        } else {
            None
        },
{
    reveal_strlit("\r\n\r\n");
    let gap = "\r\n\r\n"@;
    let whole = headers + gap + body;
    lemma_headers_end(headers, body);
    assert(whole.take(headers.len() as int) =~= headers);
    assert(whole.skip((headers.len() + gap.len()) as int) =~= body);
}

/// A response without an empty line is no answer.
pub proof fn law_a_response_without_a_body_is_no_answer(response: Seq<char>)
    requires
        !text::contains_text(response, "\r\n\r\n"@),
    ensures
        !is_version_answer(response),
        success_body(response) is None,
{
    text::lemma_find_from(response, "\r\n\r\n"@, 0);
    if let Some(at) = text::find_in(response, "\r\n\r\n"@) {
        assert(text::occurs_at(response, "\r\n\r\n"@, at));
    }
}

} // verus!
