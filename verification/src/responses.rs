//! Reading Alpaca HTTP responses: the refusal of an unexpected status, with the API's own error
//! message when the body carries one, and the typed documents of expected ones.

use vstd::prelude::*;
use vstd::string::StringSliceAdditionalSpecFns;
use vstd::utf8::*;
use crate::alpaca::{is_rejection, HttpResponse};
use crate::broker::{
    api_account_decodable, api_account_decodes, api_fill_decodable, api_fill_decodes,
    api_order_decodable, api_order_decodes, api_position_decodable, api_position_decodes,
    decode_api_account, decode_api_fill, decode_api_order, decode_api_position, ApiAccount,
    ApiFillActivity, ApiOrder, ApiPosition,
};
use crate::execution::BrokerError;
use crate::json::{get, json_display, json_display_text, json_get, parse_json, parsed_json, JsonValue};
use crate::text::{
    is_control_char, lemma_encode_utf8_push, nat_digits, push_char, push_number, push_str,
    text_bytes, utf8_string,
};

verus! {

broadcast use vstd::seq_lib::group_seq_properties;

/// At most this many characters of an API error message are kept.
pub const MAX_ERROR_MESSAGE_CHARS: usize = 256;

// ---------------------------------------------------------------------------------------------
// Error messages
// ---------------------------------------------------------------------------------------------

/// The characters of `s` that are not control characters, in order.
pub open spec fn visible_chars(s: Seq<char>) -> Seq<char>
    decreases s.len(),
{
    if s.len() == 0 {
        s
    } else if is_control_char(s.last()) {
        visible_chars(s.drop_last())
    } else {
        visible_chars(s.drop_last()).push(s.last())
    }
}

/// The first 256 visible characters of an API error message.
pub open spec fn message_excerpt(s: Seq<char>) -> Seq<char> {
    let v = visible_chars(s);
    if v.len() <= MAX_ERROR_MESSAGE_CHARS {
        v
    } else {
        v.take(MAX_ERROR_MESSAGE_CHARS as int)
    }
}

fn char_is_control(c: char) -> (res: bool)
    ensures
        res == is_control_char(c),
{
    let u = c as u32;
    u <= 0x1F || (0x7F <= u && u <= 0x9F)
}

/// Appends the UTF-8 bytes of the message excerpt of `s`.
fn push_message_excerpt(out: &mut Vec<u8>, s: &str)
    ensures
        final(out)@ == old(out)@ + text_bytes(message_excerpt(s@)),
        valid_utf8(old(out)@) ==> valid_utf8(final(out)@),
{
    broadcast use vstd::string::axiom_spec_iter;

    let ghost start = out@;
    let mut kept: Vec<u8> = Vec::new();
    let mut count: usize = 0;
    assert(kept@ =~= text_bytes(visible_chars(s@.take(0)).take(0)));
    for c in iter: s.chars()
        invariant
            iter.seq() == s@,
            count <= MAX_ERROR_MESSAGE_CHARS,
            count == (if visible_chars(s@.take(iter.index() as int)).len()
                <= MAX_ERROR_MESSAGE_CHARS {
                visible_chars(s@.take(iter.index() as int)).len()
            } else {
                MAX_ERROR_MESSAGE_CHARS as nat
            }),
            kept@ == text_bytes(
                visible_chars(s@.take(iter.index() as int)).take(count as int),
            ),
    {
        let ghost i = iter.index();
        let ghost before = visible_chars(s@.take(i as int));
        assert(s@.take(i + 1).drop_last() =~= s@.take(i as int));
        assert(s@.take(i + 1).last() == c);
        if !char_is_control(c) {
            assert(visible_chars(s@.take(i + 1)) == before.push(c));
            if count < MAX_ERROR_MESSAGE_CHARS {
                push_char(&mut kept, c);
                proof {
                    lemma_encode_utf8_push(before.take(count as int), c);
                    assert(before.push(c).take(count + 1) =~= before.take(count as int).push(c));
                }
                count = count + 1;
            } else {
                assert(before.push(c).take(count as int) =~= before.take(count as int));
            }
        } else {
            assert(visible_chars(s@.take(i + 1)) == before);
        }
    }
    proof {
        assert(s@.take(s@.len() as int) =~= s@);
        let v = visible_chars(s@);
        if v.len() <= MAX_ERROR_MESSAGE_CHARS {
            assert(v.take(count as int) =~= v);
        }
        encode_utf8_valid_utf8(message_excerpt(s@));
    }
    let ghost mid = out@;
    let kept_text = utf8_string(kept);
    push_str(out, kept_text.as_str());
    proof {
        if valid_utf8(mid) {
        }
    }
}

/// What `serde` reads from an `Option<String>` member: absent or `null` is `None`, a string is
/// its text, and anything else makes the whole body unreadable.
pub open spec fn optional_text(v: Option<JsonValue>) -> Option<Option<Seq<char>>> {
    match v {
        None => Some(None),
        Some(JsonValue::Null) => Some(None),
        Some(JsonValue::String(s)) => Some(Some(s@)),
        Some(_) => None,
    }
}

/// What `serde` reads from an `Option<Value>` member: absent or `null` is `None`.
pub open spec fn optional_value(v: Option<JsonValue>) -> Option<JsonValue> {
    match v {
        None => None,
        Some(JsonValue::Null) => None,
        Some(x) => Some(x),
    }
}

/// The `message` and `code` of an Alpaca error body, read into two optional fields: from an
/// object by name, or from an array of exactly two elements by position.
pub open spec fn error_body_fields(v: JsonValue) -> Option<(Option<Seq<char>>, Option<JsonValue>)> {
    match v {
        JsonValue::Object(m) => match optional_text(json_get(m@, "message"@)) {
            Some(message) => Some((message, optional_value(json_get(m@, "code"@)))),
            None => None,
        },
        JsonValue::Array(a) => if a@.len() == 2 {
            match optional_text(Some(a@[0])) {
                Some(message) => Some((message, optional_value(Some(a@[1])))),
                None => None,
            }
        } else {
            None
        },
        _ => None,
    }
}

pub open spec fn missing_error_body_text() -> Seq<char> {
    "request rejected without a valid error body"@
}

/// The detail of a refused request: the API's message excerpt, with `(code ...)` when the body
/// has a code, or a fixed text when the body carries no message.
pub open spec fn rejection_detail(body: Seq<u8>) -> Seq<u8> {
    match parsed_json(body) {
        Some(v) => match error_body_fields(v) {
            Some((Some(message), code)) => text_bytes(message_excerpt(message)) + match code {
                Some(c) => text_bytes(" (code "@) + text_bytes(json_display_text(c)) + text_bytes(
                    ")"@,
                ),
                None => Seq::<u8>::empty(),
            },
            _ => text_bytes(missing_error_body_text()),
        },
        None => text_bytes(missing_error_body_text()),
    }
}

/// `Alpaca HTTP <status>: <detail>`.
pub open spec fn rejection_text(status: u16, body: Seq<u8>) -> Seq<u8> {
    text_bytes("Alpaca HTTP "@) + nat_digits(status as nat) + text_bytes(": "@) + rejection_detail(
        body,
    )
}

/// `e` is a rejection whose message has exactly these UTF-8 bytes.
pub open spec fn fails_with(e: BrokerError, text: Seq<u8>) -> bool {
    e matches BrokerError::Rejected(m) && text_bytes(m@) == text
}

/// The `message` and `code` of an error body, when it has a readable message.
fn error_message(v: &JsonValue) -> (res: Option<(&str, Option<&JsonValue>)>)
    ensures
        match error_body_fields(*v) {
            Some((Some(message), code)) => res matches Some((m, c)) && m@ == message && match code {
                Some(cv) => c matches Some(x) && *x == cv,
                None => c is None,
            },
            _ => res is None,
        },
{
    let (message, code) = match v {
        JsonValue::Object(m) => (get(m, "message"), get(m, "code")),
        JsonValue::Array(a) => {
            if a.len() != 2 {
                return None;
            }
            (Some(&a[0]), Some(&a[1]))
        },
        _ => {
            return None;
        },
    };
    let text = match message {
        Some(JsonValue::String(s)) => s.as_str(),
        _ => {
            return None;
        },
    };
    let code = match code {
        None => None,
        Some(JsonValue::Null) => None,
        Some(x) => Some(x),
    };
    Some((text, code))
}

/// The refusal of a response whose status the caller did not expect.
pub fn api_rejection(response: HttpResponse) -> (res: BrokerError)
    ensures
        fails_with(res, rejection_text(response.status, response.body@)),
{
    let mut out: Vec<u8> = Vec::new();
    assert(valid_utf8(out@)) by {
        assert(out@ =~= encode_utf8(Seq::<char>::empty()));
    }
    push_str(&mut out, "Alpaca HTTP ");
    push_number(&mut out, response.status as u64);
    push_str(&mut out, ": ");
    let ghost prefix = out@;
    let parsed = parse_json(response.body.as_slice());
    let fields = match &parsed {
        Some(v) => error_message(v),
        None => None,
    };
    match fields {
        Some((message, code)) => {
            push_message_excerpt(&mut out, message);
            match code {
                Some(c) => {
                    push_str(&mut out, " (code ");
                    let shown = json_display(c);
                    push_str(&mut out, shown.as_str());
                    push_str(&mut out, ")");
                },
                None => {},
            }
        },
        None => {
            push_str(&mut out, "request rejected without a valid error body");
        },
    }
    assert(out@ =~= rejection_text(response.status, response.body@));
    BrokerError::Rejected(utf8_string(out))
}

// ---------------------------------------------------------------------------------------------
// Expected documents
// ---------------------------------------------------------------------------------------------

pub open spec fn invalid_json_text() -> Seq<u8> {
    text_bytes("Alpaca returned invalid JSON"@)
}

/// The JSON document of a response with an expected status, or the text of its refusal.
pub open spec fn response_json(response: HttpResponse, expected: Seq<u16>) -> Result<
    JsonValue,
    Seq<u8>,
> {
    if !expected.contains(response.status) {
        Err(rejection_text(response.status, response.body@))
    } else {
        match parsed_json(response.body@) {
            Some(v) => Ok(v),
            None => Err(invalid_json_text()),
        }
    }
}

fn status_in(status: u16, expected: &[u16]) -> (res: bool)
    ensures
        res == expected@.contains(status),
{
    let mut i: usize = 0;
    while i < expected.len()
        invariant
            i <= expected.len(),
            forall|j: int| 0 <= j < i ==> expected@[j] != status,
        decreases expected.len() - i,
    {
        if expected[i] == status {
            assert(expected@[i as int] == status);
            return true;
        }
        i = i + 1;
    }
    false
}

fn invalid_json() -> (res: BrokerError)
    ensures
        fails_with(res, invalid_json_text()),
{
    let e = BrokerError::Rejected("Alpaca returned invalid JSON".to_owned());
    proof {
        let s: &str = "Alpaca returned invalid JSON";
        assert(s.spec_bytes() == text_bytes(s@));
    }
    e
}

/// The JSON document of a successful response.
pub fn success_document(response: HttpResponse, expected: &[u16]) -> (res: Result<
    JsonValue,
    BrokerError,
>)
    ensures
        match response_json(response, expected@) {
            Ok(v) => res == Ok::<JsonValue, BrokerError>(v),
            Err(t) => res matches Err(e) && fails_with(e, t),
        },
{
    if !status_in(response.status, expected) {
        return Err(api_rejection(response));
    }
    match parse_json(response.body.as_slice()) {
        Some(v) => Ok(v),
        None => Err(invalid_json()),
    }
}

// ---------------------------------------------------------------------------------------------
// Typed documents
// ---------------------------------------------------------------------------------------------

/// A document read as a typed value: `ok` when it decodes, else the invalid-JSON refusal.
pub open spec fn read_as<A>(
    response: HttpResponse,
    expected: Seq<u16>,
    decodable: spec_fn(JsonValue) -> bool,
    decodes: spec_fn(JsonValue, A) -> bool,
    res: Result<A, BrokerError>,
) -> bool {
    match response_json(response, expected) {
        Err(t) => res matches Err(e) && fails_with(e, t),
        Ok(v) => if decodable(v) {
            res matches Ok(x) && decodes(v, x)
        } else {
            res matches Err(e) && fails_with(e, invalid_json_text())
        },
    }
}

pub open spec fn orders_decodable(v: JsonValue) -> bool {
    v matches JsonValue::Array(a) && forall|i: int|
        0 <= i < a@.len() ==> api_order_decodable(#[trigger] a@[i])
}

/// The API orders of a JSON array, element for element.
pub open spec fn orders_decode(v: JsonValue, xs: Vec<ApiOrder>) -> bool {
    &&& v matches JsonValue::Array(a)
    &&& a@.len() == xs@.len()
    &&& forall|i: int| 0 <= i < xs@.len() ==> api_order_decodes(a@[i], #[trigger] xs@[i])
}

pub open spec fn positions_decodable(v: JsonValue) -> bool {
    v matches JsonValue::Array(a) && forall|i: int|
        0 <= i < a@.len() ==> api_position_decodable(#[trigger] a@[i])
}

/// The API positions of a JSON array, element for element.
pub open spec fn positions_decode(v: JsonValue, xs: Vec<ApiPosition>) -> bool {
    &&& v matches JsonValue::Array(a)
    &&& a@.len() == xs@.len()
    &&& forall|i: int| 0 <= i < xs@.len() ==> api_position_decodes(a@[i], #[trigger] xs@[i])
}

pub open spec fn fills_decodable(v: JsonValue) -> bool {
    v matches JsonValue::Array(a) && forall|i: int|
        0 <= i < a@.len() ==> api_fill_decodable(#[trigger] a@[i])
}

/// The fill activities of a JSON array, element for element.
pub open spec fn fills_decode(v: JsonValue, xs: Vec<ApiFillActivity>) -> bool {
    &&& v matches JsonValue::Array(a)
    &&& a@.len() == xs@.len()
    &&& forall|i: int| 0 <= i < xs@.len() ==> api_fill_decodes(a@[i], #[trigger] xs@[i])
}

pub fn decode_api_orders(v: &JsonValue) -> (res: Option<Vec<ApiOrder>>)
    ensures
        res is Some <==> orders_decodable(*v),
        res matches Some(xs) ==> orders_decode(*v, xs),
{
    let a = match v {
        JsonValue::Array(a) => a,
        _ => {
            return None;
        },
    };
    let mut out: Vec<ApiOrder> = Vec::new();
    let mut i: usize = 0;
    while i < a.len()
        invariant
            i <= a.len(),
            *v == JsonValue::Array(*a),
            out@.len() == i,
            forall|j: int| 0 <= j < i ==> api_order_decodable(a@[j]),
            forall|j: int| 0 <= j < i ==> api_order_decodes(a@[j], #[trigger] out@[j]),
        decreases a.len() - i,
    {
        match decode_api_order(&a[i]) {
            Some(o) => out.push(o),
            None => {
                assert(!api_order_decodable(a@[i as int]));
                assert(v matches JsonValue::Array(b) && b@ == a@);
                return None;
            },
        }
        i = i + 1;
    }
    Some(out)
}

pub fn decode_api_positions(v: &JsonValue) -> (res: Option<Vec<ApiPosition>>)
    ensures
        res is Some <==> positions_decodable(*v),
        res matches Some(xs) ==> positions_decode(*v, xs),
{
    let a = match v {
        JsonValue::Array(a) => a,
        _ => {
            return None;
        },
    };
    let mut out: Vec<ApiPosition> = Vec::new();
    let mut i: usize = 0;
    while i < a.len()
        invariant
            i <= a.len(),
            *v == JsonValue::Array(*a),
            out@.len() == i,
            forall|j: int| 0 <= j < i ==> api_position_decodable(a@[j]),
            forall|j: int| 0 <= j < i ==> api_position_decodes(a@[j], #[trigger] out@[j]),
        decreases a.len() - i,
    {
        match decode_api_position(&a[i]) {
            Some(p) => out.push(p),
            None => {
                assert(!api_position_decodable(a@[i as int]));
                assert(v matches JsonValue::Array(b) && b@ == a@);
                return None;
            },
        }
        i = i + 1;
    }
    Some(out)
}

pub fn decode_api_fills(v: &JsonValue) -> (res: Option<Vec<ApiFillActivity>>)
    ensures
        res is Some <==> fills_decodable(*v),
        res matches Some(xs) ==> fills_decode(*v, xs),
{
    let a = match v {
        JsonValue::Array(a) => a,
        _ => {
            return None;
        },
    };
    let mut out: Vec<ApiFillActivity> = Vec::new();
    let mut i: usize = 0;
    while i < a.len()
        invariant
            i <= a.len(),
            *v == JsonValue::Array(*a),
            out@.len() == i,
            forall|j: int| 0 <= j < i ==> api_fill_decodable(a@[j]),
            forall|j: int| 0 <= j < i ==> api_fill_decodes(a@[j], #[trigger] out@[j]),
        decreases a.len() - i,
    {
        match decode_api_fill(&a[i]) {
            Some(f) => out.push(f),
            None => {
                assert(!api_fill_decodable(a@[i as int]));
                assert(v matches JsonValue::Array(b) && b@ == a@);
                return None;
            },
        }
        i = i + 1;
    }
    Some(out)
}

/// The API order a response carries.
pub fn read_order(response: HttpResponse, expected: &[u16]) -> (res: Result<ApiOrder, BrokerError>)
    ensures
        read_as(
            response,
            expected@,
            |x: JsonValue| api_order_decodable(x),
            |x: JsonValue, o: ApiOrder| api_order_decodes(x, o),
            res,
        ),
{
    let v = match success_document(response, expected) {
        Ok(v) => v,
        Err(e) => {
            return Err(e);
        },
    };
    match decode_api_order(&v) {
        Some(o) => Ok(o),
        None => Err(invalid_json()),
    }
}

/// The page of API orders a response carries.
pub fn read_orders(response: HttpResponse) -> (res: Result<Vec<ApiOrder>, BrokerError>)
    ensures
        read_as(
            response,
            seq![200u16],
            |x: JsonValue| orders_decodable(x),
            |x: JsonValue, xs: Vec<ApiOrder>| orders_decode(x, xs),
            res,
        ),
{
    let expected: [u16; 1] = [200];
    assert(expected@ =~= seq![200u16]);
    let v = match success_document(response, &expected) {
        Ok(v) => v,
        Err(e) => {
            return Err(e);
        },
    };
    match decode_api_orders(&v) {
        Some(xs) => Ok(xs),
        None => Err(invalid_json()),
    }
}

/// The account a response carries.
pub fn read_account(response: HttpResponse) -> (res: Result<ApiAccount, BrokerError>)
    ensures
        read_as(
            response,
            seq![200u16],
            |x: JsonValue| api_account_decodable(x),
            |x: JsonValue, a: ApiAccount| api_account_decodes(x, a),
            res,
        ),
{
    let expected: [u16; 1] = [200];
    assert(expected@ =~= seq![200u16]);
    let v = match success_document(response, &expected) {
        Ok(v) => v,
        Err(e) => {
            return Err(e);
        },
    };
    match decode_api_account(&v) {
        Some(a) => Ok(a),
        None => Err(invalid_json()),
    }
}

/// The positions a response carries.
pub fn read_positions(response: HttpResponse) -> (res: Result<Vec<ApiPosition>, BrokerError>)
    ensures
        read_as(
            response,
            seq![200u16],
            |x: JsonValue| positions_decodable(x),
            |x: JsonValue, xs: Vec<ApiPosition>| positions_decode(x, xs),
            res,
        ),
{
    let expected: [u16; 1] = [200];
    assert(expected@ =~= seq![200u16]);
    let v = match success_document(response, &expected) {
        Ok(v) => v,
        Err(e) => {
            return Err(e);
        },
    };
    match decode_api_positions(&v) {
        Some(xs) => Ok(xs),
        None => Err(invalid_json()),
    }
}

/// The page of fill activities a response carries.
pub fn read_fills(response: HttpResponse) -> (res: Result<Vec<ApiFillActivity>, BrokerError>)
    ensures
        read_as(
            response,
            seq![200u16],
            |x: JsonValue| fills_decodable(x),
            |x: JsonValue, xs: Vec<ApiFillActivity>| fills_decode(x, xs),
            res,
        ),
{
    let expected: [u16; 1] = [200];
    assert(expected@ =~= seq![200u16]);
    let v = match success_document(response, &expected) {
        Ok(v) => v,
        Err(e) => {
            return Err(e);
        },
    };
    match decode_api_fills(&v) {
        Some(xs) => Ok(xs),
        None => Err(invalid_json()),
    }
}

} // verus!
