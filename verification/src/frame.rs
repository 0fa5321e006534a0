//! Inbound frame classification.  Each line of the stream parses to one JSON
//! value; what the session does with it depends only on which of five
//! members the value carries (a string `id`, a `result`, an `error`, a
//! string `method`, a `params`).  That shape is extracted into plain
//! booleans, and the classification itself is a verified total function.
//!
//! Precedence is fixed: a frame that carries `id` and `result` is a
//! Response whatever else it carries; then a tied error, then an untied
//! error, then a notification.  A frame that matches no shape closes the
//! connection.

use vstd::prelude::*;
use vstd::string::StringExecFns;
use crate::textops::{chars_of, is_space_char, is_space_char_exec};
use crate::jsonval::{
    json_as_str, json_clone, json_error_message, json_get, json_parse,
};

verus! {

/// One classified inbound event, as the session coordinator consumes it.
pub enum RpcEvent {
    Response { id: String, result: serde_json::Value },
    Error { id: Option<String>, error: serde_json::Value },
    Notification { method: String, params: serde_json::Value },
    Closed { message: String },
}

/// Which of the shape-determining members an inbound frame carries.
/// `has_id` and `has_method` hold only when the member is a JSON string.
pub struct FrameShape {
    pub has_id: bool,
    pub has_result: bool,
    pub has_error: bool,
    pub has_method: bool,
    pub has_params: bool,
}

/// The four categories of a classified frame, plus the closing category for
/// a frame that matches no shape.
pub enum FrameClass {
    Response,
    ErrorTied,
    ErrorUntied,
    Notification,
    Unrecognized,
}

/// The wire shapes of the protocol: a response carries `id` and `result`; a
/// tied error carries `id` and `error`; an untied error carries `error` and
/// no `id`; a notification carries `method` and `params` and no `id`.
pub open spec fn shape_response(s: FrameShape) -> bool {
    s.has_id && s.has_result
}

pub open spec fn shape_error_tied(s: FrameShape) -> bool {
    s.has_id && s.has_error
}

pub open spec fn shape_error_untied(s: FrameShape) -> bool {
    !s.has_id && s.has_error
}

pub open spec fn shape_notification(s: FrameShape) -> bool {
    !s.has_id && s.has_method && s.has_params
}

/// The classifier: first matching shape wins, in the fixed precedence
/// response, tied error, untied error, notification.
pub open spec fn classify_shape(s: FrameShape) -> FrameClass {
    if shape_response(s) {
        FrameClass::Response
    } else if shape_error_tied(s) {
        FrameClass::ErrorTied
    } else if shape_error_untied(s) {
        FrameClass::ErrorUntied
    } else if shape_notification(s) {
        FrameClass::Notification
    } else {
        FrameClass::Unrecognized
    }
}

/// Classification is exhaustive and mutually exclusive: every frame gets
/// exactly one category; the category is one of the four protocol shapes
/// exactly when the frame matches at least one shape, and a frame matching
/// no shape is always the closing category.
pub proof fn lemma_classification_exhaustive(s: FrameShape)
    ensures
        classify_shape(s) is Response ==> shape_response(s),
        classify_shape(s) is ErrorTied ==> shape_error_tied(s),
        classify_shape(s) is ErrorUntied ==> shape_error_untied(s),
        classify_shape(s) is Notification ==> shape_notification(s),
        classify_shape(s) is Unrecognized <==> (!shape_response(s) && !shape_error_tied(s)
            && !shape_error_untied(s) && !shape_notification(s)),
{
}

/// Builds the event for a frame whose extracted members are given, following
/// `classify_shape` on the member presence exactly.  The `error` payload of
/// an untied error is the frame's `error` member; a frame matching no shape
/// closes the connection with a fixed reason.
pub fn build_event(
    fid: Option<String>,
    fresult: Option<serde_json::Value>,
    ferror: Option<serde_json::Value>,
    fmethod: Option<String>,
    fparams: Option<serde_json::Value>,
) -> (r: RpcEvent)
    ensures
        ({
            let s = FrameShape {
                has_id: fid is Some,
                has_result: fresult is Some,
                has_error: ferror is Some,
                has_method: fmethod is Some,
                has_params: fparams is Some,
            };
            &&& classify_shape(s) is Response ==> (r matches RpcEvent::Response { id, result }
                && id == fid->0 && result == fresult->0)
            &&& classify_shape(s) is ErrorTied ==> (r matches RpcEvent::Error { id, error }
                && id == Some(fid->0) && error == ferror->0)
            &&& classify_shape(s) is ErrorUntied ==> (r matches RpcEvent::Error { id, error }
                && id is None && error == ferror->0)
            &&& classify_shape(s) is Notification ==> (r matches RpcEvent::Notification {
                method,
                params,
            } && method == fmethod->0 && params == fparams->0)
            &&& classify_shape(s) is Unrecognized ==> (r matches RpcEvent::Closed { message }
                && message@ == "unrecognized frame shape"@)
        }),
{
    match (fid, fresult, ferror, fmethod, fparams) {
        (Some(id), Some(result), _, _, _) => RpcEvent::Response { id, result },
        (Some(id), None, Some(error), _, _) => RpcEvent::Error { id: Some(id), error },
        (None, _, Some(error), _, _) => RpcEvent::Error { id: None, error },
        (None, _, None, Some(method), Some(params)) => RpcEvent::Notification { method, params },
        _ => RpcEvent::Closed { message: String::from_str("unrecognized frame shape") },
    }
}

/// Extracts the shape-determining members of a parsed frame and classifies
/// it.  The extraction reads an opaque JSON value, so nothing relates the
/// result to the value; `build_event` carries the verified classification.
pub fn classify_value(v: &serde_json::Value) -> RpcEvent {
    let fid: Option<String> = match json_get(v, "id") {
        Some(idv) => match json_as_str(idv) {
            Some(s) => Some(s.to_owned()),
            None => None,
        },
        None => None,
    };
    let fresult: Option<serde_json::Value> = match json_get(v, "result") {
        Some(rv) => Some(json_clone(rv)),
        None => None,
    };
    let ferror: Option<serde_json::Value> = match json_get(v, "error") {
        Some(ev) => Some(json_clone(ev)),
        None => None,
    };
    let fmethod: Option<String> = match json_get(v, "method") {
        Some(mv) => match json_as_str(mv) {
            Some(s) => Some(s.to_owned()),
            None => None,
        },
        None => None,
    };
    let fparams: Option<serde_json::Value> = match json_get(v, "params") {
        Some(pv) => Some(json_clone(pv)),
        None => None,
    };
    build_event(fid, fresult, ferror, fmethod, fparams)
}

/// True of a line that holds nothing but spaces and ASCII control
/// whitespace; the reader skips such lines.
pub open spec fn spec_is_blank(s: Seq<char>) -> bool {
    forall|i: int| 0 <= i < s.len() ==> is_space_char(s[i])
}

/// True iff the line is blank.
pub fn line_is_blank(chars: &Vec<char>) -> (r: bool)
    ensures
        r == spec_is_blank(chars@),
{
    let mut i: usize = 0;
    while i < chars.len()
        invariant
            i <= chars.len(),
            forall|j: int| 0 <= j < i ==> is_space_char(chars@[j]),
        decreases chars.len() - i,
    {
        if !is_space_char_exec(chars[i]) {
            return false;
        }
        i = i + 1;
    }
    true
}

/// Turns one line read off the wire into an event, or `None` for a blank
/// line.  A line that fails to parse as JSON closes the connection: the
/// framing of the stream can no longer be trusted.
pub fn line_event(line: &str) -> (r: Option<RpcEvent>)
    ensures
        spec_is_blank(line@) <==> r is None,
{
    let line_chars = chars_of(line);
    if line_is_blank(&line_chars) {
        return None;
    }
    match json_parse(line) {
        Ok(v) => Some(classify_value(&v)),
        Err(e) => {
            let msg = json_error_message(&e);
            Some(
                RpcEvent::Closed {
                    message: String::from_str("json parse error: ").concat(msg.as_str()),
                },
            )
        },
    }
}

} // verus!
