//! What the compositor's control program says about its outputs.

use vstd::prelude::*;

use crate::json::{as_text, field, json_of, json_text, parse, Json};

verus! {

/// What a run of the control program left behind.
pub struct Reply {
    /// It exited successfully.
    pub success: bool,
    /// What it printed.
    pub stdout: Vec<u8>,
}

/// The document that a run printed; `None` where it did not run, failed, or printed
/// something else.
pub open spec fn reply_json(reply: Option<Reply>) -> Option<Json> {
    match reply {
        Some(r) => if r.success {
            json_text(r.stdout@)
        } else {
            None
        },
        None => None,
    }
}

/// Parse what a run of the control program printed.
pub fn parse_reply(reply: &Option<Reply>) -> (r: Option<serde_json::Value>)
    ensures
        match r {
            Some(v) => reply_json(*reply) == Some(json_of(v)),
            None => reply_json(*reply) is None,
        },
{
    match reply {
        Some(run) => {
            if run.success {
                parse(run.stdout.as_slice())
            } else {
                None
            }
        },
        None => None,
    }
}

/// The monitor that a focused client reports: a non-empty name.
pub open spec fn focused_monitor(client: Json) -> Option<Seq<char>> {
    match client.field("monitor"@) {
        Some(m) => match m.text() {
            Some(name) => if name.len() == 0 {
                None
            } else {
                Some(name)
            },
            None => None,
        },
        None => None,
    }
}

/// A name that names something: the text, unless there is none or it is empty.
pub fn non_empty(text: Option<&str>) -> (r: Option<String>)
    ensures
        match r {
            Some(name) => text matches Some(t) && t@.len() > 0 && name@ == t@,
            None => text matches Some(t) ==> t@.len() == 0,
        },
{
    match text {
        Some(t) => {
            if t.is_empty() {
                None
            } else {
                Some(t.to_owned())
            }
        },
        None => None,
    }
}

/// The monitor that the focused client's description names.
pub fn monitor_name(client: &serde_json::Value) -> (r: Option<String>)
    ensures
        match r {
            Some(name) => focused_monitor(json_of(*client)) == Some(name@),
            None => focused_monitor(json_of(*client)) is None,
        },
{
    match field(client, "monitor") {
        None => None,
        Some(m) => non_empty(as_text(m)),
    }
}

/// The connector name of the output that is focused, from the reply to a query for the
/// focused client; `None` if it cannot be determined.
///
/// The focused client's monitor singles one output out. The flag by which outputs call
/// themselves active means that they are powered on, which can be true of all of them.
pub fn active_output_name(reply: &Option<Reply>) -> (r: Option<String>)
    ensures
        match reply_json(*reply) {
            Some(client) => match r {
                Some(name) => focused_monitor(client) == Some(name@),
                None => focused_monitor(client) is None,
            },
            None => r is None,
        },
{
    match parse_reply(reply) {
        Some(client) => monitor_name(&client),
        None => None,
    }
}

/// A reply counts only where the program ran and succeeded, and then for what it printed.
pub proof fn law_only_a_successful_run_counts(r: Reply)
    ensures
        reply_json(None) is None,
        !r.success ==> reply_json(Some(r)) is None,
        r.success ==> reply_json(Some(r)) == json_text(r.stdout@),
{
}

/// The focused output is named by the text in the member `monitor`, wherever that text is not
/// empty.
pub proof fn law_focused_output_is_the_named_monitor(m: Map<Seq<char>, Json>, name: Seq<char>)
    ensures
        focused_monitor(Json::Object(m)) == Some(name) <==> name.len() > 0 && m.dom().contains(
            "monitor"@,
        ) && m["monitor"@] == Json::Text(name),
        forall|v: Json|
            !(v is Object) ==> (#[trigger] focused_monitor(v)) is None,
{
}

} // verus!
