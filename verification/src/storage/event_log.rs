//! The event-log record: the only persistent log.
//!
//! An event is an approved bucket tag, a timestamp, a retention deadline one
//! day later and an optional numeric detail. There is no free-text field, so
//! module names, user identifiers, file paths or peer ids cannot enter it.

use vstd::prelude::*;

use uuid::Uuid;

use crate::domain::{bucket_tag, EventBucket};
use crate::text::{decimal, is_hex_digit, join, push_decimal};

verus! {

/// How long an event is kept: 24 hours.
pub const EVENT_RETENTION_SECONDS: i64 = 86_400;

/// A log detail payload with no free-text fields: all fields are numeric.
#[derive(Debug, Clone, Copy)]
pub struct SafeEventDetail {
    /// Numeric error code — never an error message string.
    pub error_code: Option<u32>,
    /// Object count (e.g. packages transferred in a sync).
    pub object_count: Option<u32>,
    /// Elapsed time in milliseconds (performance logging only).
    pub elapsed_ms: Option<u32>,
}

impl Default for SafeEventDetail {
    fn default() -> (d: Self)
        ensures
            d.error_code is None,
            d.object_count is None,
            d.elapsed_ms is None,
    {
        SafeEventDetail { error_code: None, object_count: None, elapsed_ms: None }
    }
}

/// The JSON member `"key":value` for a present value, nothing for an absent one.
pub open spec fn member(key: Seq<char>, v: Option<u32>) -> Seq<Seq<char>> {
    match v {
        Some(x) => seq![key + decimal(x as nat)],
        None => Seq::empty(),
    }
}

/// The JSON members of a detail, in the order err, n, ms.
pub open spec fn detail_members(d: SafeEventDetail) -> Seq<Seq<char>> {
    member("\"err\":"@, d.error_code) + member("\"n\":"@, d.object_count) + member("\"ms\":"@, d.elapsed_ms)
}

/// The compact JSON object of a detail: `{}` when no field is set.
pub open spec fn detail_json(d: SafeEventDetail) -> Seq<char> {
    let members = detail_members(d);
    if members.len() == 0 {
        "{}"@
    } else {
        "{"@ + join(members, ","@) + "}"@
    }
}

fn push_member(parts: &mut Vec<String>, key: &str, v: Option<u32>)
    ensures
        crate::text::strings_view(final(parts)@) == crate::text::strings_view(old(parts)@) + member(key@, v),
{
    match v {
        Some(x) => {
            let mut s = key.to_owned();
            push_decimal(&mut s, x as u64);
            let ghost before = parts@;
            parts.push(s);
            assert(crate::text::strings_view(parts@) =~= crate::text::strings_view(before) + member(key@, v));
        },
        None => {
            assert(crate::text::strings_view(parts@) =~= crate::text::strings_view(parts@) + member(key@, v));
        },
    }
}

proof fn lemma_join_step(parts: Seq<Seq<char>>, i: int, sep: Seq<char>)
    requires
        1 <= i < parts.len(),
    ensures
        join(parts.take(i + 1), sep) == join(parts.take(i), sep) + sep + parts[i],
{
    assert(parts.take(i + 1).drop_last() =~= parts.take(i));
}

impl SafeEventDetail {
    /// The compact JSON rendering stored in the log, e.g. `{"err":3,"ms":12}`.
    pub fn to_json(&self) -> (r: String)
        ensures
            r@ == detail_json(*self),
    {
        let mut parts: Vec<String> = Vec::new();
        push_member(&mut parts, "\"err\":", self.error_code);
        push_member(&mut parts, "\"n\":", self.object_count);
        push_member(&mut parts, "\"ms\":", self.elapsed_ms);
        let ghost members = crate::text::strings_view(parts@);
        assert(members =~= detail_members(*self));
        if parts.len() == 0 {
            return "{}".to_owned();
        }
        let mut out = "{".to_owned();
        out.push_str(parts[0].as_str());
        proof {
            assert(members.take(1).len() == 1);
            assert(join(members.take(1), ","@) == members.take(1)[0]);
            assert(members.take(1)[0] == parts@[0]@);
        }
        let n = parts.len();
        for i in 1..n
            invariant
                n == parts@.len(),
                members == crate::text::strings_view(parts@),
                out@ == "{"@ + join(members.take(i as int), ","@),
        {
            out.push_str(",");
            out.push_str(parts[i].as_str());
            proof {
                lemma_join_step(members, i as int, ","@);
                assert(members[i as int] == parts@[i as int]@);
                assert(out@ =~= "{"@ + join(members.take(i + 1), ","@));
            }
        }
        out.push_str("}");
        proof {
            assert(members.take(n as int) =~= members);
        }
        out
    }
}

/// A stored event: id, bucket tag, timestamp, retention deadline, detail JSON.
#[derive(Debug, Clone)]
pub struct EventRecord {
    pub event_id: String,
    pub event_tag: String,
    pub ts: i64,
    pub retention_until: i64,
    pub detail_json: Option<String>,
}

/// The text form of a version-4 UUID: 36 characters, hyphens at positions
/// 8, 13, 18 and 23, the version digit `4` at position 14, and hex digits
/// everywhere else.
pub open spec fn is_v4_uuid_text(id: Seq<char>) -> bool {
    &&& id.len() == 36
    &&& forall|k: int| 0 <= k < 36 ==> (if k == 8 || k == 13 || k == 18 || k == 23 {
        #[trigger] id[k] == '-'
    } else {
        is_hex_digit(id[k])
    })
    &&& id[14] == '4'
}

/// A fresh event id: `Uuid::new_v4()` rendered by `Uuid::to_string`.
/// Claimed, as the crate's formatter writes it: 36 characters, hyphens at
/// positions 8, 13, 18 and 23, the version digit `4` at position 14, and
/// lowercase hex digits everywhere else. The id is random; nothing else is
/// said of it. The crate panics if the system random source fails.
#[verifier::external_body]
fn new_event_id() -> (id: String)
    ensures
        is_v4_uuid_text(id@),
{
    Uuid::new_v4().to_string()
}

/// The record logged for `bucket` at time `now`: a fresh random id in the
/// text form of a version-4 UUID, the bucket's tag, retention until one day after `now`, and the detail as JSON.
pub fn log_event_record(bucket: EventBucket, detail: Option<SafeEventDetail>, now: i64) -> (r: EventRecord)
    requires
        now <= i64::MAX - EVENT_RETENTION_SECONDS,
    ensures
        is_v4_uuid_text(r.event_id@),
        r.event_tag@ == bucket_tag(bucket),
        r.ts == now,
        r.retention_until == now + EVENT_RETENTION_SECONDS,
        r.detail_json matches Some(j) ==> detail matches Some(d) && j@ == detail_json(d),
        r.detail_json is None <==> detail is None,
{
    let event_id = new_event_id();
    let event_tag = bucket.tag().to_owned();
    let detail_json = match detail {
        Some(d) => Some(d.to_json()),
        None => None,
    };
    EventRecord { event_id, event_tag, ts: now, retention_until: now + EVENT_RETENTION_SECONDS, detail_json }
}

} // verus!
