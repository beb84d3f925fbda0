//! Ingest timestamps: the wall-clock instant a line was read, rendered as
//! RFC 3339 text.

use vstd::prelude::*;
use vstd::string::StringExecFns;

use time::OffsetDateTime;

use crate::types::{LogEvent, PodKey};

verus! {

#[verifier::external_type_specification]
#[verifier::external_body]
pub struct ExOffsetDateTime(OffsetDateTime);

/// A well-formed timestamp text: non-empty, printable ASCII, without quote
/// or backslash — single-line and needing no JSON escaping.
pub open spec fn ts_wf(s: Seq<char>) -> bool {
    &&& s.len() > 0
    &&& forall|i: int|
        0 <= i < s.len() ==> 32 <= ((#[trigger] s[i]) as u32) < 127 && s[i] != '"' && s[i] != '\\'
}

/// Relies on time::OffsetDateTime::now_utc: the current instant, in UTC.
#[verifier::external_body]
fn now_utc() -> OffsetDateTime {
    OffsetDateTime::now_utc()
}

/// Relies on time::OffsetDateTime::format with the well-known RFC 3339
/// description: the rendering has the shape `1985-04-12T23:20:50.52Z` —
/// digits and the separators `-T:.+Z`, all printable ASCII — and the
/// formatter fails only outside the four-digit year range.
#[verifier::external_body]
fn format_rfc3339(t: OffsetDateTime) -> (r: Option<String>)
    ensures
        (match r {
            Some(s) => ts_wf(s@),
            None => true,
        }),
{
    match t.format(&time::format_description::well_known::Rfc3339) {
        Ok(s) => Some(s),
        Err(_) => None,
    }
}

/// The timestamp text of this moment; a rendering failure falls back to a
/// fixed placeholder.
pub fn now_timestamp() -> (r: String)
    ensures
        ts_wf(r@),
{
    let t = now_utc();
    match format_rfc3339(t) {
        Some(s) => s,
        None => {
            let fallback = String::from_str("<bad-ts>");
            proof {
                reveal_strlit("<bad-ts>");
                assert(ts_wf(fallback@));
            }
            fallback
        },
    }
}

/// A log event stamped with the moment of ingestion: the pod identity, the
/// container, and the already-trimmed message.
pub fn ingest_event(pod: &PodKey, container: &String, message: String) -> (ev: LogEvent)
    ensures
        ev@.namespace == pod@.namespace,
        ev@.pod == pod@.name,
        ev@.container == container@,
        ev@.message == message@,
        ts_wf(ev@.ts),
{
    LogEvent {
        ts: now_timestamp(),
        namespace: pod.namespace.clone(),
        pod: pod.name.clone(),
        container: container.clone(),
        message,
    }
}

} // verus!
