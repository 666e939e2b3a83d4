//! The JSON-RPC envelope: outbound calls framed as lines, inbound lines classified.
use vstd::prelude::*;
use crate::hex::hex_text;
use crate::json::{as_i64, field, json_bytes, json_parsed, json_text, parse_json, JsonValue};
use crate::work::{work_of, EthGetWorkResponse};

verus! {

/// Relies on the `Serialize` impl of `web3::types::Address` (impl-serde's
/// `serialize_raw`), reached through `serde_json::to_value`: a JSON string of
/// `0x` and two lower-case digits per byte; it cannot fail.
#[verifier::external_body]
fn address_text(a: &[u8; 20]) -> (r: Option<String>)
    ensures
        r is Some,
        r matches Some(s) ==> s@ == seq!['0', 'x'] + hex_text(a@),
{
    let v = serde_json::to_value(web3::types::Address::from(*a)).ok()?;
    v.as_str().map(|t| t.to_owned())
}

/// One line on the wire: a body without line feeds, then one line feed.
pub open spec fn is_frame(b: Seq<u8>) -> bool {
    b.len() >= 1 && b.last() == 10u8 && !b.drop_last().contains(10u8)
}

/// Appends the line feed that ends a frame.
pub fn frame(json: Vec<u8>) -> (r: Vec<u8>)
    ensures
        r@ == json@.push(10u8),
{
    let mut out = json;
    out.push(10u8);
    out
}

/// The request object of a call: `id`, `jsonrpc` "2.0", `method`, `params`
/// and the pool's own `worker` member, in that order.
pub open spec fn is_call_object(
    o: JsonValue,
    id: usize,
    method: Seq<char>,
    params: Seq<JsonValue>,
    worker: Seq<char>,
) -> bool {
    o matches JsonValue::Object(m) && {
        let m = m@;
        &&& m.len() == 5
        &&& m[0].0@ == "id"@ && m[0].1 == JsonValue::UInt(id as u64)
        &&& m[1].0@ == "jsonrpc"@ && (m[1].1 matches JsonValue::Str(v) && v@ == "2.0"@)
        &&& m[2].0@ == "method"@ && (m[2].1 matches JsonValue::Str(x) && x@ == method)
        &&& m[3].0@ == "params"@ && (m[3].1 matches JsonValue::Array(p) && p@ == params)
        &&& m[4].0@ == "worker"@ && (m[4].1 matches JsonValue::Str(w) && w@ == worker)
    }
}

/// `b` is the frame of the call object with these parts.
pub open spec fn is_call_frame(
    b: Seq<u8>,
    id: usize,
    method: Seq<char>,
    params: Seq<JsonValue>,
    worker: Seq<char>,
) -> bool {
    exists|o: JsonValue| is_call_object(o, id, method, params, worker) && b == json_text(o).push(10u8)
}

/// The login parameters: the wallet address as `0x` and lower-case digits.
pub open spec fn is_login_params(p: Seq<JsonValue>, wallet: Seq<u8>) -> bool {
    p.len() == 1 && (p[0] matches JsonValue::Str(s) && s@ == seq!['0', 'x'] + hex_text(wallet))
}

/// `b` is the login frame for this wallet and worker.
pub open spec fn is_login_frame(b: Seq<u8>, wallet: Seq<u8>, worker: Seq<char>) -> bool {
    exists|p: Seq<JsonValue>| is_login_params(p, wallet) && is_call_frame(b, 1, "eth_submitLogin"@, p, worker)
}

/// An outbound JSON-RPC call.
pub struct WrappedCall {
    pub id: usize,
    pub method: String,
    pub params: Vec<JsonValue>,
}

impl WrappedCall {
    pub fn new(id: usize, method: &str, params: Vec<JsonValue>) -> (r: Self)
        ensures
            r.id == id,
            r.method@ == method@,
            r.params@ == params@,
    {
        WrappedCall { id, method: method.to_owned(), params }
    }

    /// The request object, with the worker name beside the call's members.
    pub fn into_object(self, worker_name: String) -> (o: JsonValue)
        ensures
            is_call_object(o, self.id, self.method@, self.params@, worker_name@),
    {
        proof {
            reveal_strlit("id");
            reveal_strlit("jsonrpc");
            reveal_strlit("2.0");
            reveal_strlit("method");
            reveal_strlit("params");
            reveal_strlit("worker");
        }
        let members = vec![
            ("id".to_owned(), JsonValue::UInt(self.id as u64)),
            ("jsonrpc".to_owned(), JsonValue::Str("2.0".to_owned())),
            ("method".to_owned(), JsonValue::Str(self.method)),
            ("params".to_owned(), JsonValue::Array(self.params)),
            ("worker".to_owned(), JsonValue::Str(worker_name)),
        ];
        JsonValue::Object(members)
    }

    /// The call as one line: its JSON object with a `worker` member, then a
    /// line feed.
    pub fn serialize(self, worker_name: String) -> (r: Option<Vec<u8>>)
        ensures
            (r matches Some(b) && is_frame(b@) && is_call_frame(
                b@,
                self.id,
                self.method@,
                self.params@,
                worker_name@,
            )),
    {
        let ghost (id, method, params, worker) = (self.id, self.method@, self.params@, worker_name@);
        let o = self.into_object(worker_name);
        let body = json_bytes(&o)?;
        let out = frame(body);
        assert(out@.drop_last() =~= body@);
        assert(is_call_object(o, id, method, params, worker));
        Some(out)
    }
}

/// The login call: id 1, method `eth_submitLogin`, the wallet address as its
/// only parameter, and the worker name beside them.
pub fn login_frame(wallet_address: &[u8; 20], worker_name: String) -> (r: Vec<u8>)
    ensures
        is_frame(r@),
        is_login_frame(r@, wallet_address@, worker_name@),
{
    let address = match address_text(wallet_address) {
        Some(a) => a,
        None => {
            assert(false);
            String::new()
        },
    };
    let params = vec![JsonValue::Str(address)];
    assert(is_login_params(params@, wallet_address@));
    match WrappedCall::new(1, "eth_submitLogin", params).serialize(worker_name) {
        Some(b) => b,
        None => {
            assert(false);
            Vec::new()
        },
    }
}

/// What one inbound line means to the session.
pub enum LineEvent {
    /// The line is not JSON.
    NotJson,
    /// The value has no integer `id`.
    NoId,
    /// The answer to the login call.
    LoginAck,
    /// A new work assignment.
    Work(EthGetWorkResponse),
    /// A work notification whose result does not decode.
    BadWork,
    /// Any other message.
    Ignored,
}

/// The `id` of a message, where it is an integer.
pub open spec fn id_of(v: JsonValue) -> Option<i64> {
    match field(v, "id"@) {
        Some(x) => as_i64(x),
        None => None,
    }
}

/// The `result` of a message, where present and not null.
pub open spec fn result_of(v: JsonValue) -> Option<JsonValue> {
    match field(v, "result"@) {
        Some(JsonValue::Null) => None,
        Some(x) => Some(x),
        None => None,
    }
}

/// The work assignment that the message `v` announces, if any.
pub open spec fn announced_work(v: JsonValue) -> Option<crate::work::WorkView> {
    if id_of(v) == Some(0i64) && result_of(v) is Some {
        work_of(result_of(v)->0)
    } else {
        None
    }
}

/// `e` is what the message `v` means.
pub open spec fn means(v: JsonValue, e: LineEvent) -> bool {
    match id_of(v) {
        None => e is NoId,
        Some(id) => if id == 1 {
            e is LoginAck
        } else if id == 0 && result_of(v) is Some {
            match work_of(result_of(v)->0) {
                Some(w) => e matches LineEvent::Work(x) && x@ == w,
                None => e is BadWork,
            }
        } else {
            e is Ignored
        },
    }
}

/// Classifies one decoded message.
pub fn classify(v: &JsonValue) -> (r: LineEvent)
    ensures
        means(*v, r),
{
    let id_key = "id".to_owned();
    let result_key = "result".to_owned();
    proof {
        reveal_strlit("id");
        reveal_strlit("result");
    }
    let id = match v.get(&id_key) {
        Some(x) => match x.as_i64() {
            Some(i) => i,
            None => return LineEvent::NoId,
        },
        None => return LineEvent::NoId,
    };
    if id == 1 {
        return LineEvent::LoginAck;
    }
    if id != 0 {
        return LineEvent::Ignored;
    }
    match v.get(&result_key) {
        Some(JsonValue::Null) => LineEvent::Ignored,
        Some(result) => match EthGetWorkResponse::from_rpc(result) {
            Some(w) => LineEvent::Work(w),
            None => LineEvent::BadWork,
        },
        None => LineEvent::Ignored,
    }
}

/// Decodes and classifies one inbound line; nothing in a line is fatal.
pub fn decode_line(line: &str) -> (r: LineEvent)
    ensures
        match json_parsed(line@) {
            None => r is NotJson,
            Some(v) => means(v, r),
        },
{
    match parse_json(line) {
        Some(v) => classify(&v),
        None => LineEvent::NotJson,
    }
}

} // verus!
