use vstd::prelude::*;

use crate::detail::{
    decode_record, record_of_text, CachedDetail, DetailCache, ProviderABaseEvent, RecordModel,
    ZoneModel,
};
use crate::index::{contained_in, IntervalIndex};
use crate::keys::{detail_key, detail_key_of, is_composite, is_segment, joined, parse_composite_id};
use crate::price::{extreme_zone, is_first_extreme, zone_prices};
use crate::text::{ids_of, split_datetime};

verus! {

/// Why a query was refused or could not be answered.
pub enum QueryError {
    /// The window is malformed or inverted.
    Validation(String),
    /// The store could not be reached.
    StoreUnavailable(String),
    /// Any other failure.
    Internal(String),
}

/// Accepts the window `[from_epoch, to_epoch)` only when it is non-empty.
pub fn check_window(from_epoch: i64, to_epoch: i64) -> (r: Result<(), QueryError>)
    ensures
        match r {
            Ok(_) => from_epoch < to_epoch,
            Err(e) => from_epoch >= to_epoch && e is Validation,
        },
{
    if from_epoch < to_epoch {
        Ok(())
    } else {
        Err(QueryError::Validation("starts_at must be before ends_at.".to_owned()))
    }
}

pub open spec fn opt_view(t: Option<String>) -> Option<Seq<char>> {
    match t {
        Some(s) => Some(s@),
        None => None,
    }
}

pub open spec fn text_views(texts: Seq<Option<String>>) -> Seq<Option<Seq<char>>> {
    texts.map_values(|t: Option<String>| opt_view(t))
}

pub open spec fn record_models(v: Seq<ProviderABaseEvent>) -> Seq<RecordModel> {
    v.map_values(|e: ProviderABaseEvent| e@)
}

/// The records that the ids resolve to, in order: an id that is not a composite identifier,
/// whose detail text is absent, or whose text holds no record, is left out.
/// `texts[i]` is the detail text fetched for `ids[i]`.
pub open spec fn resolved(ids: Seq<Seq<char>>, texts: Seq<Option<Seq<char>>>) -> Seq<RecordModel>
    decreases ids.len(),
{
    if ids.len() == 0 {
        Seq::empty()
    } else {
        let n = ids.len() - 1;
        let rest = resolved(ids.drop_last(), texts);
        if is_composite(ids[n]) && n < texts.len() && texts[n] is Some && record_of_text(
            texts[n]->0,
        ) is Some {
            rest.push(record_of_text(texts[n]->0)->0)
        } else {
            rest
        }
    }
}

/// The ids that a query with match ceiling `ceiling` resolves.
pub open spec fn taken(ids: Seq<Seq<char>>, ceiling: usize) -> Seq<Seq<char>> {
    if ids.len() > ceiling {
        ids.take(ceiling as int)
    } else {
        ids
    }
}

proof fn lemma_resolved_reads_own_texts(
    ids: Seq<Seq<char>>,
    t1: Seq<Option<Seq<char>>>,
    t2: Seq<Option<Seq<char>>>,
)
    requires
        ids.len() <= t1.len(),
        ids.len() <= t2.len(),
        forall|j: int| 0 <= j < ids.len() ==> t1[j] == t2[j],
    ensures
        resolved(ids, t1) == resolved(ids, t2),
    decreases ids.len(),
{
    if ids.len() > 0 {
        lemma_resolved_reads_own_texts(ids.drop_last(), t1, t2);
    }
}

/// A matched id whose detail text is absent is simply left out: the records resolved with it
/// are those resolved without it.
pub proof fn lemma_absent_detail_skipped(
    ids: Seq<Seq<char>>,
    texts: Seq<Option<Seq<char>>>,
    i: int,
)
    requires
        ids.len() <= texts.len(),
        0 <= i < ids.len(),
        texts[i] is None,
    ensures
        resolved(ids, texts) == resolved(ids.remove(i), texts.remove(i)),
    decreases ids.len(),
{
    let n = ids.len() - 1;
    if i == n {
        assert(ids.remove(i) =~= ids.drop_last());
        lemma_resolved_reads_own_texts(ids.drop_last(), texts, texts.remove(i));
    } else {
        lemma_absent_detail_skipped(ids.drop_last(), texts, i);
        assert(ids.remove(i).drop_last() =~= ids.drop_last().remove(i));
        assert(ids.remove(i)[n - 1] == ids[n]);
        assert(texts.remove(i)[n - 1] == texts[n]);
    }
}

/// Resolves the first `ceiling` matched ids against the detail texts fetched for them;
/// the flag tells whether ids were left out by the ceiling.
pub fn resolve_records(matches: &Vec<String>, texts: &Vec<Option<String>>, ceiling: usize) -> (r: (
    Vec<ProviderABaseEvent>,
    bool,
))
    ensures
        r.1 == (matches@.len() > ceiling),
        record_models(r.0@) == resolved(taken(ids_of(matches@), ceiling), text_views(texts@)),
{
    let ghost ids = ids_of(matches@);
    let ghost tv = text_views(texts@);
    let truncated = matches.len() > ceiling;
    let limit = if truncated {
        ceiling
    } else {
        matches.len()
    };
    let mut out: Vec<ProviderABaseEvent> = Vec::new();
    let mut i: usize = 0;
    assert(ids.take(0) =~= Seq::<Seq<char>>::empty());
    assert(record_models(out@) =~= Seq::<RecordModel>::empty());
    while i < limit
        invariant
            ids == ids_of(matches@),
            tv == text_views(texts@),
            limit <= matches@.len(),
            i <= limit,
            record_models(out@) == resolved(ids.take(i as int), tv),
        decreases limit - i,
    {
        let ghost before = record_models(out@);
        let ghost pre = ids.take(i + 1);
        proof {
            assert(pre.drop_last() =~= ids.take(i as int));
            assert(pre[i as int] == matches@[i as int]@);
        }
        match parse_composite_id(matches[i].as_str()) {
            None => {},
            Some(c) => {
                proof {
                    assert(is_segment(c.tenant@) && is_segment(c.base_id@) && is_segment(
                        c.leaf_id@,
                    ) && joined(c.tenant@, c.base_id@, c.leaf_id@) == pre[i as int]);
                }
                if i < texts.len() {
                    match &texts[i] {
                        Some(t) => {
                            assert(tv[i as int] == Some(t@));
                            match decode_record(t.as_str()) {
                                Some(e) => {
                                    out.push(e);
                                    assert(record_models(out@) =~= before.push(e@));
                                },
                                None => {},
                            }
                        },
                        None => {
                            assert(tv[i as int] is None);
                        },
                    }
                }
            },
        }
        i = i + 1;
    }
    proof {
        if truncated {
            assert(taken(ids, ceiling) == ids.take(ceiling as int));
        } else {
            assert(ids.take(limit as int) =~= ids);
        }
    }
    (out, truncated)
}

/// One result of a query, ready for the response: the parent's id and title, the plan's start
/// and end split into date and time, and the lowest and highest zone price as written.
pub struct EventView {
    pub id: String,
    pub title: String,
    pub start_date: String,
    pub start_time: String,
    pub end_date: String,
    pub end_time: String,
    pub min_price: String,
    pub max_price: String,
}

/// `date` and `time` are `dt` split at its first `T`.
pub open spec fn splits(dt: Seq<char>, date: Seq<char>, time: Seq<char>) -> bool {
    &&& !date.contains('T')
    &&& dt.contains('T') ==> dt == date + seq!['T'] + time
    &&& !dt.contains('T') ==> date == dt && time.len() == 0
}

/// `p` is the price of the first zone with the lowest price (the highest, when `highest`), or
/// `0` when no zone has a price.
pub open spec fn priced_as(zs: Seq<ZoneModel>, p: Seq<char>, highest: bool) -> bool {
    ||| exists|i: int| #[trigger] is_first_extreme(zone_prices(zs), i, highest) && p == zs[i].price
    ||| (forall|j: int| 0 <= j < zs.len() ==> #[trigger] zone_prices(zs)[j] is None) && p
        == seq!['0']
}

/// `v` is the view of record `r`.
pub open spec fn is_view_of(v: EventView, r: RecordModel) -> bool {
    &&& v.id@ == r.id
    &&& v.title@ == r.title
    &&& splits(r.plan.plan_start_date, v.start_date@, v.start_time@)
    &&& splits(r.plan.plan_end_date, v.end_date@, v.end_time@)
    &&& priced_as(r.plan.zones, v.min_price@, false)
    &&& priced_as(r.plan.zones, v.max_price@, true)
}

fn price_text(record: &ProviderABaseEvent, highest: bool) -> (r: String)
    ensures
        priced_as(record@.plan.zones, r@, highest),
{
    match extreme_zone(&record.plan.zones, highest) {
        Some(i) => record.plan.zones[i].price.clone(),
        None => {
            proof {
                reveal_strlit("0");
            }
            let zero = "0".to_owned();
            assert(zero@ =~= seq!['0']);
            zero
        },
    }
}

/// The view of one record.
pub fn event_view(record: &ProviderABaseEvent) -> (v: EventView)
    ensures
        is_view_of(v, record@),
{
    let (start_date, start_time) = split_datetime(record.plan.plan_start_date.as_str());
    let (end_date, end_time) = split_datetime(record.plan.plan_end_date.as_str());
    EventView {
        id: record.id.clone(),
        title: record.title.clone(),
        start_date,
        start_time,
        end_date,
        end_time,
        min_price: price_text(record, false),
        max_price: price_text(record, true),
    }
}

/// A successful response body: the payload and no error.
pub struct ApiResponse<T> {
    pub data: T,
    pub error: Option<String>,
}

/// The events of a response.
pub struct EventsData {
    pub events: Vec<EventView>,
}

/// The response for a list of resolved records: one view per record, in order, and no error.
pub fn map_provider_events_to_response_dto(base_events: &Vec<ProviderABaseEvent>) -> (r:
    ApiResponse<EventsData>)
    ensures
        r.error is None,
        r.data.events@.len() == base_events@.len(),
        forall|i: int|
            0 <= i < base_events@.len() ==> is_view_of(
                #[trigger] r.data.events@[i],
                base_events@[i]@,
            ),
{
    let mut events: Vec<EventView> = Vec::new();
    let mut i: usize = 0;
    while i < base_events.len()
        invariant
            i <= base_events@.len(),
            events@.len() == i,
            forall|j: int| 0 <= j < i ==> is_view_of(#[trigger] events@[j], base_events@[j]@),
        decreases base_events@.len() - i,
    {
        events.push(event_view(&base_events[i]));
        i = i + 1;
    }
    ApiResponse { data: EventsData { events }, error: None }
}

/// The live detail text stored for member `id` at `now`.
pub open spec fn live_text(m: Map<Seq<char>, CachedDetail>, id: Seq<char>, now: u64) -> Option<
    Seq<char>,
> {
    let k = detail_key_of(id);
    if m.contains_key(k) && now < m[k].expires_at {
        Some(m[k].text@)
    } else {
        None
    }
}

pub open spec fn live_texts(m: Map<Seq<char>, CachedDetail>, ids: Seq<Seq<char>>, now: u64) -> Seq<
    Option<Seq<char>>,
> {
    ids.map_values(|id: Seq<char>| live_text(m, id, now))
}

impl DetailCache {
    /// The stored text for member `composite_id` that is still live at `now`.
    pub fn get_text(&self, composite_id: &str, now: u64) -> (r: Option<String>)
        requires
            self.wf(),
        ensures
            opt_view(r) == live_text(self@, composite_id@, now),
    {
        let key = detail_key(composite_id);
        match self.entries.get(&key) {
            Some(entry) => {
                if (now as u128) < entry.expires_at {
                    Some(entry.text.clone())
                } else {
                    None
                }
            },
            None => None,
        }
    }
}

/// What a query found: every matched member, whether the ceiling cut the list, and the
/// records resolved from the members within the ceiling.
pub struct SearchOutcome {
    pub matched: Vec<String>,
    pub truncated: bool,
    pub records: Vec<ProviderABaseEvent>,
}

/// Answers "what is available in `[from_epoch, to_epoch]`" from the index and the detail
/// cache at instant `now`, resolving at most `ceiling` of the matched members.
pub fn search(
    index: &IntervalIndex,
    cache: &DetailCache,
    from_epoch: i64,
    to_epoch: i64,
    now: u64,
    ceiling: usize,
) -> (r: Result<SearchOutcome, QueryError>)
    requires
        index.wf(),
        cache.wf(),
    ensures
        match r {
            Err(e) => from_epoch >= to_epoch && e is Validation,
            Ok(o) => {
                &&& from_epoch < to_epoch
                &&& ids_of(o.matched@).no_duplicates()
                &&& forall|k: Seq<char>|
                    #[trigger] ids_of(o.matched@).contains(k) <==> contained_in(
                        index@,
                        k,
                        from_epoch,
                        to_epoch,
                    )
                &&& o.truncated == (o.matched@.len() > ceiling)
                &&& o.matched@.len() == 0 ==> o.records@.len() == 0
                &&& record_models(o.records@) == resolved(
                    taken(ids_of(o.matched@), ceiling),
                    live_texts(cache@, taken(ids_of(o.matched@), ceiling), now),
                )
            },
        },
{
    match check_window(from_epoch, to_epoch) {
        Err(e) => {
            return Err(e);
        },
        Ok(_) => {},
    }
    let matched = index.query_overlap(from_epoch, to_epoch);
    let ghost ids = taken(ids_of(matched@), ceiling);
    let limit = if matched.len() > ceiling {
        ceiling
    } else {
        matched.len()
    };
    let mut texts: Vec<Option<String>> = Vec::new();
    let mut i: usize = 0;
    while i < limit
        invariant
            ids == taken(ids_of(matched@), ceiling),
            limit == ids.len(),
            limit <= matched@.len(),
            i <= limit,
            text_views(texts@) =~= live_texts(cache@, ids.take(i as int), now),
            cache.wf(),
        decreases limit - i,
    {
        let t = cache.get_text(matched[i].as_str(), now);
        let ghost before = text_views(texts@);
        texts.push(t);
        proof {
            assert(ids[i as int] == matched@[i as int]@);
            assert(text_views(texts@) =~= before.push(opt_view(t)));
            assert(ids.take(i + 1) =~= ids.take(i as int).push(ids[i as int]));
        }
        i = i + 1;
    }
    assert(ids.take(limit as int) =~= ids);
    let (records, truncated) = resolve_records(&matched, &texts, ceiling);
    proof {
        if matched@.len() == 0 {
            assert(taken(ids_of(matched@), ceiling).len() == 0);
            assert(record_models(records@).len() == 0);
        }
    }
    Ok(SearchOutcome { matched, truncated, records })
}

} // verus!
