use vstd::prelude::*;

use crate::detail::{encode_record, record_text, stored, DetailCache, ProviderABaseEvent};
use crate::index::{recorded, IntervalIndex};
use crate::keys::{composite_id, detail_key, detail_key_of, is_segment, joined};
use crate::text::{chars_of, find_char};
use crate::transport::{epoch_of_text, parse_timestamp, TIMESTAMP_FORMAT};

verus! {

/// How a base entity is distributed; only publicly listed (`Online`) ones are indexed.
#[derive(Debug, Clone, Copy, PartialEq, Eq)]
pub enum SellModeEnum {
    Online,
    Offline,
}

pub open spec fn sell_mode_text(m: SellModeEnum) -> Seq<char> {
    match m {
        SellModeEnum::Online => seq!['o', 'n', 'l', 'i', 'n', 'e'],
        SellModeEnum::Offline => seq!['o', 'f', 'f', 'l', 'i', 'n', 'e'],
    }
}

impl SellModeEnum {
    /// The lower-case name of the mode.
    pub fn as_text(&self) -> (r: String)
        ensures
            r@ == sell_mode_text(*self),
    {
        match self {
            SellModeEnum::Online => {
                proof {
                    reveal_strlit("online");
                }
                let r = "online".to_owned();
                assert(r@ =~= sell_mode_text(*self));
                r
            },
            SellModeEnum::Offline => {
                proof {
                    reveal_strlit("offline");
                }
                let r = "offline".to_owned();
                assert(r@ =~= sell_mode_text(*self));
                r
            },
        }
    }
}

/// An entity that passes the inclusion policy.
pub open spec fn is_listed(mode: Option<SellModeEnum>) -> bool {
    mode == Some(SellModeEnum::Online)
}

/// The write path could not index an entity; the persisted data is unaffected.
pub enum IndexWriteError {
    /// One of the entity's identifiers holds `:`, so no member name can be built for it.
    InvalidId(String),
}

/// The writes that index one entity: the member and its two scores, and the detail text under
/// its key.
pub struct IndexWrite {
    pub member: String,
    pub start_epoch: i64,
    pub end_epoch: i64,
    pub detail_key: String,
    pub detail_text: String,
}

fn is_segment_text(s: &str) -> (r: bool)
    ensures
        r == is_segment(s@),
{
    let chars = chars_of(s);
    match find_char(&chars, ':', 0) {
        Some(p) => {
            assert(s@[p as int] == ':');
            false
        },
        None => true,
    }
}

/// Decides whether the entity with detail record `record`, owned by `tenant`, is indexed, and
/// with which writes. The base id is the record's id and the leaf id its plan's id.
pub fn plan_index_write(
    tenant: &str,
    record: &ProviderABaseEvent,
    sell_mode: Option<SellModeEnum>,
    start_epoch: i64,
    end_epoch: i64,
) -> (r: Result<Option<IndexWrite>, IndexWriteError>)
    ensures
        match r {
            Ok(None) => !is_listed(sell_mode),
            Ok(Some(w)) => {
                &&& is_listed(sell_mode)
                &&& w.member@ == joined(tenant@, record.id@, record.plan.plan_id@)
                &&& w.start_epoch == start_epoch
                &&& w.end_epoch == end_epoch
                &&& w.detail_key@ == detail_key_of(w.member@)
                &&& w.detail_text@ == record_text(record@)
            },
            Err(_) => {
                &&& is_listed(sell_mode)
                &&& !(is_segment(tenant@) && is_segment(record.id@) && is_segment(
                    record.plan.plan_id@,
                ))
            },
        },
{
    match sell_mode {
        Some(SellModeEnum::Online) => {},
        _ => {
            return Ok(None);
        },
    }
    if !is_segment_text(tenant) || !is_segment_text(record.id.as_str()) || !is_segment_text(
        record.plan.plan_id.as_str(),
    ) {
        return Err(IndexWriteError::InvalidId(record.plan.plan_id.clone()));
    }
    let member = composite_id(tenant, record.id.as_str(), record.plan.plan_id.as_str());
    let key = detail_key(member.as_str());
    Ok(
        Some(
            IndexWrite {
                member,
                start_epoch,
                end_epoch,
                detail_key: key,
                detail_text: encode_record(record),
            },
        ),
    )
}

/// The start and end of a plan in epoch seconds, read from its two timestamp texts; `None`
/// when either does not read as a timestamp.
pub fn plan_interval(record: &ProviderABaseEvent) -> (r: Option<(i64, i64)>)
    ensures
        ({
            let start = epoch_of_text(record.plan.plan_start_date@, TIMESTAMP_FORMAT@);
            let end = epoch_of_text(record.plan.plan_end_date@, TIMESTAMP_FORMAT@);
            match r {
                Some((s, e)) => start == Some(s) && end == Some(e),
                None => start is None || end is None,
            }
        }),
{
    let start = parse_timestamp(record.plan.plan_start_date.as_str(), TIMESTAMP_FORMAT);
    let end = parse_timestamp(record.plan.plan_end_date.as_str(), TIMESTAMP_FORMAT);
    match (start, end) {
        (Some(s), Some(e)) => Some((s, e)),
        _ => None,
    }
}

/// Indexes one persisted entity: records its interval and stores its detail record for `ttl`
/// seconds from `now`. Returns whether the entity passed the inclusion policy; an entity that
/// does not, or that cannot be named, leaves the index and the cache as they were.
pub fn index_entity(
    index: &mut IntervalIndex,
    cache: &mut DetailCache,
    tenant: &str,
    record: &ProviderABaseEvent,
    sell_mode: Option<SellModeEnum>,
    start_epoch: i64,
    end_epoch: i64,
    ttl: u64,
    now: u64,
) -> (r: Result<bool, IndexWriteError>)
    requires
        old(index).wf(),
        old(cache).wf(),
    ensures
        final(index).wf(),
        final(cache).wf(),
        match r {
            Ok(true) => {
                let member = joined(tenant@, record.id@, record.plan.plan_id@);
                &&& is_listed(sell_mode)
                &&& final(index)@ == recorded(old(index)@, member, start_epoch, end_epoch)
                &&& stored(old(cache)@, final(cache)@, member, record@, ttl, now)
            },
            Ok(false) => {
                &&& !is_listed(sell_mode)
                &&& final(index)@ == old(index)@
                &&& final(cache)@ == old(cache)@
            },
            Err(_) => {
                &&& is_listed(sell_mode)
                &&& !(is_segment(tenant@) && is_segment(record.id@) && is_segment(
                    record.plan.plan_id@,
                ))
                &&& final(index)@ == old(index)@
                &&& final(cache)@ == old(cache)@
            },
        },
{
    match plan_index_write(tenant, record, sell_mode, start_epoch, end_epoch) {
        Err(e) => Err(e),
        Ok(None) => Ok(false),
        Ok(Some(w)) => {
            index.record(&w.member, w.start_epoch, w.end_epoch);
            cache.put(w.member.as_str(), record, ttl, now);
            Ok(true)
        },
    }
}

} // verus!
