//! What every backend shares: reading request parameters and answering one
//! request line of the stdio protocol.
use vstd::prelude::*;
use crate::json::{Json, JsonValue, json_as_str, opt_get, opt_view};
use crate::protocol::{RpcRequest, RpcResponse, ResponseView, err_view, parse_u64ish, spec_parse_u64ish, with_id};
use crate::text::{string_from, append_str, trim, trim_chars};

verus! {

/// Answers one request; implemented by each backend.
pub trait BackendHandler {
    fn handle(&mut self, method: &str, params: Option<JsonValue>) -> RpcResponse;
}

/// The text parameter `key`, if the parameters are an object holding a
/// string there.
pub open spec fn spec_param_str(params: Option<Json>, key: Seq<char>) -> Option<Seq<char>> {
    match opt_get(params, key) {
        Some(j) => json_as_str(j),
        None => None,
    }
}

/// The integer parameter `key`: `Ok(None)` when absent, the value when it
/// reads as an integer, the reason otherwise.
pub open spec fn spec_param_u64(params: Option<Json>, key: Seq<char>) -> Result<Option<u64>, Seq<char>> {
    match opt_get(params, key) {
        None => Ok(None),
        Some(j) => match spec_parse_u64ish(j) {
            Ok(v) => Ok(Some(v)),
            Err(e) => Err(e),
        },
    }
}

pub open spec fn opt_string(o: Option<String>) -> Option<Seq<char>> {
    match o {
        Some(s) => Some(s@),
        None => None,
    }
}

pub open spec fn u64_result_view(r: Result<Option<u64>, String>) -> Result<Option<u64>, Seq<char>> {
    match r {
        Ok(v) => Ok(v),
        Err(e) => Err(e@),
    }
}

/// The text parameter `key`.
pub fn param_str(params: &Option<JsonValue>, key: &str) -> (r: Option<String>)
    ensures
        opt_string(r) == spec_param_str(opt_view(*params), key@),
{
    match params {
        Some(p) => match p.get(key) {
            Some(v) => match v.as_str() {
                Some(s) => Some(string_from(s)),
                None => None,
            },
            None => None,
        },
        None => None,
    }
}

/// The integer parameter `key`.
pub fn param_u64(params: &Option<JsonValue>, key: &str) -> (r: Result<Option<u64>, String>)
    ensures
        u64_result_view(r) == spec_param_u64(opt_view(*params), key@),
{
    let v = match params {
        Some(p) => p.get(key),
        None => None,
    };
    match v {
        None => Ok(None),
        Some(v) => match parse_u64ish(v) {
            Ok(x) => Ok(Some(x)),
            Err(e) => Err(e),
        },
    }
}

/// The boolean parameter `key`, `false` unless it is present and `true`.
pub open spec fn spec_param_flag(params: Option<Json>, key: Seq<char>) -> bool {
    match opt_get(params, key) {
        Some(Json::Bool(b)) => b,
        _ => false,
    }
}

/// The boolean parameter `key`, `false` unless it is present and `true`.
pub fn param_flag(params: &Option<JsonValue>, key: &str) -> (r: bool)
    ensures
        r == spec_param_flag(opt_view(*params), key@),
{
    let v = match params {
        Some(p) => p.get(key),
        None => None,
    };
    match v {
        Some(v) => match v.as_bool() {
            Some(b) => b,
            None => false,
        },
        None => false,
    }
}

/// Whether a request line holds nothing but white space (such lines are
/// skipped).
pub fn is_blank_line(line: &str) -> (r: bool)
    ensures
        r == (trim(line@).len() == 0),
{
    trim_chars(line).len() == 0
}

/// The answer to a request line that is no valid request.
pub open spec fn bad_json_view(reason: Seq<char>) -> ResponseView {
    err_view(0, "bad_json"@, "cannot parse request: "@ + reason)
}

/// Calls `f` on the handler, the method and the parameters.
fn call_handler<H, F: FnOnce(&mut H, &str, Option<JsonValue>) -> RpcResponse>(
    f: F,
    h: &mut H,
    m: &str,
    p: Option<JsonValue>,
) -> (r: RpcResponse)
    requires
        forall|h2: &mut H| #[trigger] call_requires(f, (h2, m, p)),
    ensures
        exists|h2: &mut H| *h2 == *old(h) && *final(h2) == *final(h) && #[trigger] call_ensures(f, (h2, m, p), r),
{
    f(h, m, p)
}

/// Answers one request line: a request that was read is handed, with its
/// method and parameters, to the backend's `handle`, and the answer is what
/// `handle` answered, under the request's ID; a line that could not be read
/// is answered with `bad_json` under ID 0 and the backend is not asked.
pub fn answer_request<H: BackendHandler>(handler: &mut H, parsed: Result<RpcRequest, String>) -> (r: RpcResponse)
    ensures
        match parsed {
            Ok(req) => exists|h: &mut H, m: &str, x: RpcResponse|
                {
                    &&& *h == *old(handler)
                    &&& *final(h) == *final(handler)
                    &&& m@ == req.method@
                    &&& #[trigger] call_ensures(H::handle, (h, m, req.params), x)
                    &&& r@ == with_id(x@, req.id)
                },
            Err(reason) => r@ == bad_json_view(reason@) && *final(handler) == *old(handler),
        },
{
    match parsed {
        Ok(req) => {
            let m = req.method.as_str();
            let resp = call_handler(H::handle, handler, m, req.params);
            let mut out = resp;
            out.id = req.id;
            out
        },
        Err(reason) => {
            let mut msg = string_from("cannot parse request: ");
            append_str(&mut msg, reason.as_str());
            RpcResponse::err(0, "bad_json", msg.as_str())
        },
    }
}

} // verus!
