//! Integrations: the device information that events carry, the websocket
//! subscription of a workspace, the uplink receptions a downlink can go out
//! through, and the log records that are forwarded to a workspace.
use vstd::prelude::*;
use vstd::string::StringExecFns;

use crate::hex::{HexArray, hex_chars};

verus! {

/// The device an event is about.
#[derive(Default, Debug, Clone)]
pub struct DeviceInfo {
    pub device_name: String,
    pub device_short_id: String,
    pub workspace_name: String,
    pub vendor_name: String,
}

impl DeviceInfo {
    /// Information on device `device_name` (short ID `short_id`, of vendor
    /// `vendor_name`) of workspace `workspace_name`; the short ID is written
    /// as hexadecimal text.
    pub fn new(workspace_name: &str, device_name: &str, short_id: &HexArray<4>, vendor_name: &str) -> (r:
        DeviceInfo)
        ensures
            r.device_name@ == device_name@,
            r.device_short_id@ == hex_chars(short_id@),
            r.workspace_name@ == workspace_name@,
            r.vendor_name@ == vendor_name@,
    {
        DeviceInfo {
            device_name: String::from_str(device_name),
            device_short_id: short_id.to_string(),
            workspace_name: String::from_str(workspace_name),
            vendor_name: String::from_str(vendor_name),
        }
    }
}

/// A websocket client's subscription to the events of a workspace.
#[derive(Debug, Clone)]
pub struct Subscribe {
    pub workspace_name: String,
}

/// A gateway that received an uplink, and the context it needs to send a
/// downlink in reply.
#[derive(Debug)]
pub struct RxInfo {
    pub gateway_name: String,
    pub context: Vec<u8>,
}

impl Clone for RxInfo {
    fn clone(&self) -> (r: RxInfo)
        ensures
            r.gateway_name@ == self.gateway_name@,
            r.context@ == self.context@,
    {
        RxInfo { gateway_name: self.gateway_name.clone(), context: copy_bytes(&self.context) }
    }
}

fn copy_bytes(v: &Vec<u8>) -> (r: Vec<u8>)
    ensures
        r@ == v@,
{
    let mut out: Vec<u8> = Vec::new();
    let mut i: usize = 0;
    while i < v.len()
        invariant
            i <= v@.len(),
            out@ == v@.subrange(0, i as int),
        decreases v@.len() - i,
    {
        out.push(v[i]);
        i += 1;
    }
    assert(out@ =~= v@);
    out
}

/// The gateway that a downlink goes out through: the first that received the
/// uplink.
pub fn get_downlink_gateway(rx_info: &Vec<RxInfo>) -> (r: RxInfo)
    requires
        rx_info@.len() > 0,
    ensures
        r.gateway_name@ == rx_info@[0].gateway_name@,
        r.context@ == rx_info@[0].context@,
{
    rx_info[0].clone()
}

/// A field recorded on a span or an event: its name and its value as text.
pub type LogField = (String, String);

/// All fields of `spans` (from the root span down) and then of the event.
pub open spec fn all_fields(spans: Seq<Vec<LogField>>, event: Seq<LogField>) -> Seq<LogField>
    decreases spans.len(),
{
    if spans.len() == 0 {
        event
    } else {
        spans[0]@ + all_fields(spans.drop_first(), event)
    }
}

/// The value that a map built from `fields`, in order, holds for `name`: that
/// of the last field of that name.
pub open spec fn last_value(fields: Seq<LogField>, name: Seq<char>) -> Option<Seq<char>>
    decreases fields.len(),
{
    if fields.len() == 0 {
        None
    } else if fields.last().0@ == name {
        Some(fields.last().1@)
    } else {
        last_value(fields.drop_last(), name)
    }
}

/// `v`, or the empty text where there is none.
pub open spec fn or_empty(v: Option<Seq<char>>) -> Seq<char> {
    match v {
        Some(s) => s,
        None => Seq::empty(),
    }
}

/// A log record forwarded to a workspace.
#[derive(Debug, Clone)]
pub struct LogEntry {
    pub workspace_name: String,
    pub message: String,
    /// The fields other than the message, in order; a later field overrides
    /// an earlier one of the same name.
    pub attributes: Vec<LogField>,
}

/// Forwards the log records of workspaces to the workspaces' subscribers.
#[derive(Debug, Clone, Copy)]
pub struct LoggingLayer {}

impl LoggingLayer {
    pub fn new() -> (r: Self) {
        LoggingLayer {  }
    }

    /// The record to forward for an event with fields `event_fields` in spans
    /// with fields `span_fields` (from the root span down): the fields'
    /// message and other fields, and the workspace they name; `None` where
    /// they name no workspace.
    pub fn log_entry(&self, span_fields: &Vec<Vec<LogField>>, event_fields: &Vec<LogField>) -> (r:
        Option<LogEntry>)
        ensures
            ({
                let all = all_fields(span_fields@, event_fields@);
                let ws = or_empty(last_value(all, "workspace_name"@));
                &&& ws.len() == 0 ==> r is None
                &&& ws.len() != 0 ==> (r matches Some(e) && {
                    &&& e.workspace_name@ == ws
                    &&& e.message@ == or_empty(last_value(all, "message"@))
                    &&& e.attributes@ == all.filter(|f: LogField| f.0@ != "message"@)
                })
            }),
    {
        let ghost all = all_fields(span_fields@, event_fields@);
        let mut fields: Vec<LogField> = Vec::new();
        let mut i: usize = span_fields.len();
        proof {
            assert(span_fields@.subrange(i as int, span_fields@.len() as int) =~= Seq::<Vec<LogField>>::empty());
        }
        let mut k: usize = 0;
        while k < event_fields.len()
            invariant
                k <= event_fields@.len(),
                fields@ == event_fields@.subrange(0, k as int),
            decreases event_fields@.len() - k,
        {
            fields.push(copy_field(&event_fields[k]));
            k += 1;
        }
        assert(fields@ =~= event_fields@);
        while i > 0
            invariant
                i <= span_fields@.len(),
                fields@ == all_fields(span_fields@.subrange(i as int, span_fields@.len() as int), event_fields@),
            decreases i,
        {
            i -= 1;
            let ghost rest = fields@;
            let span = &span_fields[i];
            let mut front: Vec<LogField> = Vec::new();
            let mut j: usize = 0;
            while j < span.len()
                invariant
                    j <= span@.len(),
                    front@ == span@.subrange(0, j as int),
                decreases span@.len() - j,
            {
                front.push(copy_field(&span[j]));
                j += 1;
            }
            assert(front@ =~= span@);
            front.append(&mut fields);
            fields = front;
            proof {
                let s = span_fields@.subrange(i as int, span_fields@.len() as int);
                assert(s.drop_first() =~= span_fields@.subrange(i + 1, span_fields@.len() as int));
                assert(fields@ =~= span_fields@[i as int]@ + rest);
            }
        }
        assert(span_fields@.subrange(0, span_fields@.len() as int) =~= span_fields@);
        let workspace_name = last_value_of(&fields, "workspace_name");
        if workspace_name.as_str().unicode_len() == 0 {
            return None;
        }
        let message = last_value_of(&fields, "message");
        let attributes = without_field(&fields, "message");
        Some(LogEntry { workspace_name, message, attributes })
    }
}

fn copy_field(f: &LogField) -> (r: LogField)
    ensures
        r == *f,
{
    (f.0.clone(), f.1.clone())
}

/// The value of the last field named `name`, or the empty text.
fn last_value_of(fields: &Vec<LogField>, name: &str) -> (r: String)
    ensures
        r@ == or_empty(last_value(fields@, name@)),
{
    let target = String::from_str(name);
    let mut i: usize = fields.len();
    assert(fields@.subrange(0, i as int) =~= fields@);
    while i > 0
        invariant
            i <= fields@.len(),
            target@ == name@,
            last_value(fields@, name@) == last_value(fields@.subrange(0, i as int), name@),
        decreases i,
    {
        let ghost s = fields@.subrange(0, i as int);
        assert(s.drop_last() =~= fields@.subrange(0, i - 1));
        if fields[i - 1].0 == target {
            return fields[i - 1].1.clone();
        }
        i -= 1;
    }
    assert(fields@.subrange(0, 0) =~= Seq::<LogField>::empty());
    String::new()
}

/// The fields not named `name`, in order.
fn without_field(fields: &Vec<LogField>, name: &str) -> (r: Vec<LogField>)
    ensures
        r@ == fields@.filter(|f: LogField| f.0@ != name@),
{
    let target = String::from_str(name);
    let mut out: Vec<LogField> = Vec::new();
    let mut i: usize = 0;
    while i < fields.len()
        invariant
            i <= fields@.len(),
            target@ == name@,
            out@ == fields@.subrange(0, i as int).filter(|f: LogField| f.0@ != name@),
        decreases fields@.len() - i,
    {
        let ghost s = fields@.subrange(0, i + 1);
        assert(s.drop_last() =~= fields@.subrange(0, i as int));
        if !(fields[i].0 == target) {
            out.push(copy_field(&fields[i]));
        }
        i += 1;
        proof {
            fields@.subrange(0, i - 1).lemma_filter_push(fields@[i - 1], |f: LogField| f.0@ != name@);
            assert(fields@.subrange(0, i as int) =~= fields@.subrange(0, i - 1).push(fields@[i - 1]));
        }
    }
    assert(fields@.subrange(0, fields@.len() as int) =~= fields@);
    out
}

} // verus!
