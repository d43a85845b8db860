use vstd::prelude::*;
use crate::text::{chars_of, string_of, owned, append_chars};
use crate::num::{signed_decimal, hexadecimal, signed_decimal_chars, hex_chars};

verus! {

/// One message of a push request.
pub struct MsgContent {
    pub msg_id: String,
    pub schedule_task_id: String,
    pub schedule_task_name: String,
    pub summary: String,
    pub result: String,
    pub content: String,
    pub source: String,
    pub task_finish_time: i64,
}

/// The body of a push request, inside its `data` wrapper.
pub struct PayloadInner {
    pub auth_code: String,
    pub msg_content: Vec<MsgContent>,
}

/// A push request as it is sent to the service.
pub struct PushPayload {
    pub data: PayloadInner,
}

/// The service's answer to a push request.
pub struct PushResponse {
    pub code: String,
    pub message: String,
}

/// The code with which the service accepts a request.
pub open spec fn success_code() -> Seq<char> {
    "0000000000"@
}

impl Clone for PushResponse {
    fn clone(&self) -> (r: Self)
        ensures
            r == *self,
    {
        PushResponse { code: self.code.clone(), message: self.message.clone() }
    }
}

impl PushResponse {
    /// Whether the service accepted the request.
    pub fn success(&self) -> (r: bool)
        ensures
            r == (self.code@ == success_code()),
    {
        crate::text::chars_equal(&chars_of(self.code.as_str()), &chars_of("0000000000"))
    }
}

/// The message id for a push at `millis` milliseconds after the epoch
/// (`hiboard_` and the number in decimal).
pub open spec fn msg_id_spec(millis: i64) -> Seq<char> {
    "hiboard_"@ + signed_decimal(millis as int)
}

/// The trace id for a request at `millis` milliseconds after the epoch
/// (`hwpush_` and the number in lower-case hexadecimal, as `{:x}` writes an
/// `i64`: a negative number as its 64-bit two's complement).
pub open spec fn trace_id_spec(millis: i64) -> Seq<char> {
    "hwpush_"@ + hexadecimal((millis as u64) as nat)
}

/// The message id for a push at `millis` milliseconds after the epoch.
pub fn msg_id_at(millis: i64) -> (r: String)
    ensures
        r@ == msg_id_spec(millis),
{
    let mut v = chars_of("hiboard_");
    append_chars(&mut v, &signed_decimal_chars(millis));
    string_of(&v)
}

/// The trace id for a request at `millis` milliseconds after the epoch.
pub fn trace_id_at(millis: i64) -> (r: String)
    ensures
        r@ == trace_id_spec(millis),
{
    let mut v = chars_of("hwpush_");
    append_chars(&mut v, &hex_chars(millis as u64));
    string_of(&v)
}

/// The payload is the one request for these inputs, sent at `millis`
/// milliseconds (and `secs` seconds) after the epoch.
pub open spec fn payload_matches(
    p: PushPayload,
    auth_code: Seq<char>,
    name: Seq<char>,
    content: Seq<char>,
    result: Seq<char>,
    schedule_id: Option<Seq<char>>,
    millis: i64,
    secs: i64,
) -> bool {
    &&& p.data.auth_code@ == auth_code
    &&& p.data.msg_content@.len() == 1
    &&& {
        let m = p.data.msg_content@[0];
        &&& m.msg_id@ == msg_id_spec(millis)
        &&& m.schedule_task_id@ == (match schedule_id {
            Some(s) => s,
            None => Seq::<char>::empty(),
        })
        &&& m.schedule_task_name@ == name
        &&& m.summary@ == name
        &&& m.result@ == result
        &&& m.content@ == content
        &&& m.source@ == "OpenClaw"@
        &&& m.task_finish_time == secs
    }
}

/// The view of an optional string.
pub open spec fn opt_view(o: Option<String>) -> Option<Seq<char>> {
    match o {
        Some(s) => Some(s@),
        None => None,
    }
}

/// Builds the push request for a task sent at `millis` milliseconds (the
/// message id) and `secs` seconds (the finish time) after the epoch.
pub fn build_payload(
    auth_code: &str,
    name: &str,
    content: &str,
    result: &str,
    schedule_id: &Option<String>,
    millis: i64,
    secs: i64,
) -> (p: PushPayload)
    ensures
        payload_matches(p, auth_code@, name@, content@, result@, opt_view(*schedule_id), millis, secs),
{
    let defaults = crate::config::DefaultsConfig::default();
    let msg = MsgContent {
        msg_id: msg_id_at(millis),
        schedule_task_id: match schedule_id {
            Some(s) => s.clone(),
            None => String::new(),
        },
        schedule_task_name: owned(name),
        summary: owned(name),
        result: owned(result),
        content: owned(content),
        source: defaults.source,
        task_finish_time: secs,
    };
    let mut msgs: Vec<MsgContent> = Vec::new();
    msgs.push(msg);
    PushPayload { data: PayloadInner { auth_code: owned(auth_code), msg_content: msgs } }
}

} // verus!
