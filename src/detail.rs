use vstd::prelude::*;

use crate::codec::{decode_fields, decoded_fields, encode_fields, encoded_fields};
use crate::error::CacheError;
use crate::keys::{detail_key, detail_key_of};
use crate::table::KeyedTable;
use crate::text::ids_of;

verus! {

/// A priced sub-resource of a plan.
pub struct Zone {
    pub zone_id: String,
    pub capacity: String,
    pub price: String,
    pub name: String,
    pub numbered: bool,
}

/// A time-bounded leaf entity: its interval, its sale window and its zones.
pub struct Plan {
    pub plan_start_date: String,
    pub plan_end_date: String,
    pub plan_id: String,
    pub sell_from: String,
    pub sell_to: String,
    pub sold_out: bool,
    pub zones: Vec<Zone>,
}

/// The detail record of one leaf: the parent's id, title and sell mode, and the plan.
pub struct ProviderABaseEvent {
    pub id: String,
    pub title: String,
    pub sell_mode: String,
    pub plan: Plan,
}

pub struct ZoneModel {
    pub zone_id: Seq<char>,
    pub capacity: Seq<char>,
    pub price: Seq<char>,
    pub name: Seq<char>,
    pub numbered: bool,
}

pub struct PlanModel {
    pub plan_start_date: Seq<char>,
    pub plan_end_date: Seq<char>,
    pub plan_id: Seq<char>,
    pub sell_from: Seq<char>,
    pub sell_to: Seq<char>,
    pub sold_out: bool,
    pub zones: Seq<ZoneModel>,
}

pub struct RecordModel {
    pub id: Seq<char>,
    pub title: Seq<char>,
    pub sell_mode: Seq<char>,
    pub plan: PlanModel,
}

/// The models of a list of zones.
pub open spec fn zone_models(zones: Seq<Zone>) -> Seq<ZoneModel> {
    zones.map_values(|z: Zone| z@)
}

impl View for Zone {
    type V = ZoneModel;

    open spec fn view(&self) -> ZoneModel {
        ZoneModel {
            zone_id: self.zone_id@,
            capacity: self.capacity@,
            price: self.price@,
            name: self.name@,
            numbered: self.numbered,
        }
    }
}

impl View for Plan {
    type V = PlanModel;

    open spec fn view(&self) -> PlanModel {
        PlanModel {
            plan_start_date: self.plan_start_date@,
            plan_end_date: self.plan_end_date@,
            plan_id: self.plan_id@,
            sell_from: self.sell_from@,
            sell_to: self.sell_to@,
            sold_out: self.sold_out,
            zones: self.zones@.map_values(|z: Zone| z@),
        }
    }
}

impl View for ProviderABaseEvent {
    type V = RecordModel;

    open spec fn view(&self) -> RecordModel {
        RecordModel {
            id: self.id@,
            title: self.title@,
            sell_mode: self.sell_mode@,
            plan: self.plan@,
        }
    }
}

/// A flag is written `1` or `0`; reading takes `1` as set and anything else as unset.
pub open spec fn flag_text(b: bool) -> Seq<char> {
    if b {
        seq!['1']
    } else {
        seq!['0']
    }
}

pub open spec fn zone_fields(z: ZoneModel) -> Seq<Seq<char>> {
    seq![z.zone_id, z.capacity, z.price, z.name, flag_text(z.numbered)]
}

pub open spec fn zones_fields(zs: Seq<ZoneModel>) -> Seq<Seq<char>>
    decreases zs.len(),
{
    if zs.len() == 0 {
        Seq::empty()
    } else {
        zones_fields(zs.drop_last()) + zone_fields(zs.last())
    }
}

/// The fields of a record: nine for the parent and the plan, then five per zone.
pub open spec fn record_fields(r: RecordModel) -> Seq<Seq<char>> {
    seq![
        r.id,
        r.title,
        r.sell_mode,
        r.plan.plan_start_date,
        r.plan.plan_end_date,
        r.plan.plan_id,
        r.plan.sell_from,
        r.plan.sell_to,
        flag_text(r.plan.sold_out),
    ] + zones_fields(r.plan.zones)
}

/// The stored text of a record.
pub open spec fn record_text(r: RecordModel) -> Seq<char> {
    encoded_fields(record_fields(r))
}

pub open spec fn zone_from(fs: Seq<Seq<char>>) -> ZoneModel {
    ZoneModel {
        zone_id: fs[0],
        capacity: fs[1],
        price: fs[2],
        name: fs[3],
        numbered: fs[4] == seq!['1'],
    }
}

pub open spec fn zones_from(fs: Seq<Seq<char>>) -> Seq<ZoneModel>
    decreases fs.len(),
{
    if fs.len() < 5 {
        Seq::empty()
    } else {
        zones_from(fs.take(fs.len() - 5)).push(zone_from(fs.skip(fs.len() - 5)))
    }
}

/// The record that a list of fields describes, when it has the record's shape.
pub open spec fn record_from_fields(fs: Seq<Seq<char>>) -> Option<RecordModel> {
    if fs.len() >= 9 && (fs.len() - 9) % 5 == 0 {
        Some(
            RecordModel {
                id: fs[0],
                title: fs[1],
                sell_mode: fs[2],
                plan: PlanModel {
                    plan_start_date: fs[3],
                    plan_end_date: fs[4],
                    plan_id: fs[5],
                    sell_from: fs[6],
                    sell_to: fs[7],
                    sold_out: fs[8] == seq!['1'],
                    zones: zones_from(fs.skip(9)),
                },
            },
        )
    } else {
        None
    }
}

/// The record that a stored text holds, if it holds one.
pub open spec fn record_of_text(t: Seq<char>) -> Option<RecordModel> {
    match decoded_fields(t) {
        Some(fs) => record_from_fields(fs),
        None => None,
    }
}

proof fn lemma_flag(b: bool)
    ensures
        (flag_text(b) == seq!['1']) == b,
{
    if !b {
        assert(flag_text(b)[0] != seq!['1'][0]);
    }
}

proof fn lemma_zones_fields_len(zs: Seq<ZoneModel>)
    ensures
        zones_fields(zs).len() == 5 * zs.len(),
    decreases zs.len(),
{
    if zs.len() > 0 {
        lemma_zones_fields_len(zs.drop_last());
    }
}

proof fn lemma_zones_round_trip(zs: Seq<ZoneModel>)
    ensures
        zones_from(zones_fields(zs)) == zs,
    decreases zs.len(),
{
    if zs.len() == 0 {
        assert(zs =~= Seq::<ZoneModel>::empty());
    } else {
        let front = zs.drop_last();
        lemma_zones_round_trip(front);
        lemma_zones_fields_len(front);
        let fs = zones_fields(zs);
        assert(fs.take(fs.len() - 5) =~= zones_fields(front));
        assert(fs.skip(fs.len() - 5) =~= zone_fields(zs.last()));
        lemma_flag(zs.last().numbered);
        assert(zone_from(fs.skip(fs.len() - 5)) == zs.last());
        assert(front.push(zs.last()) =~= zs);
    }
}

/// Reading the stored text of a record gives that record back.
pub proof fn lemma_record_round_trip(r: RecordModel)
    ensures
        record_of_text(record_text(r)) == Some(r),
{
    let fs = record_fields(r);
    crate::codec::lemma_fields_round_trip(fs);
    lemma_zones_fields_len(r.plan.zones);
    lemma_zones_round_trip(r.plan.zones);
    assert(fs.skip(9) =~= zones_fields(r.plan.zones));
    lemma_flag(r.plan.sold_out);
}

fn flag_string(b: bool) -> (r: String)
    ensures
        r@ == flag_text(b),
{
    proof {
        reveal_strlit("1");
        reveal_strlit("0");
    }
    if b {
        "1".to_owned()
    } else {
        "0".to_owned()
    }
}

fn is_set_flag(s: &String) -> (r: bool)
    ensures
        r == (s@ == seq!['1']),
{
    proof {
        reveal_strlit("1");
    }
    let one = "1".to_owned();
    assert(one@ =~= seq!['1']);
    *s == one
}

/// The stored text of `record`.
pub fn encode_record(record: &ProviderABaseEvent) -> (r: String)
    ensures
        r@ == record_text(record@),
{
    let mut fields: Vec<String> = Vec::new();
    fields.push(record.id.clone());
    fields.push(record.title.clone());
    fields.push(record.sell_mode.clone());
    fields.push(record.plan.plan_start_date.clone());
    fields.push(record.plan.plan_end_date.clone());
    fields.push(record.plan.plan_id.clone());
    fields.push(record.plan.sell_from.clone());
    fields.push(record.plan.sell_to.clone());
    fields.push(flag_string(record.plan.sold_out));
    let ghost head = ids_of(fields@);
    let zones = &record.plan.zones;
    let ghost zs = zones@.map_values(|z: Zone| z@);
    let mut j: usize = 0;
    assert(zs.take(0) =~= Seq::<ZoneModel>::empty());
    assert(head + zones_fields(Seq::<ZoneModel>::empty()) =~= head);
    while j < zones.len()
        invariant
            zs == zones@.map_values(|z: Zone| z@),
            j <= zones@.len(),
            ids_of(fields@) == head + zones_fields(zs.take(j as int)),
        decreases zones@.len() - j,
    {
        let z = &zones[j];
        let ghost before = ids_of(fields@);
        fields.push(z.zone_id.clone());
        fields.push(z.capacity.clone());
        fields.push(z.price.clone());
        fields.push(z.name.clone());
        fields.push(flag_string(z.numbered));
        proof {
            assert(zs.take(j + 1).drop_last() =~= zs.take(j as int));
            assert(zs.take(j + 1).last() == z@);
            assert(ids_of(fields@) =~= before + zone_fields(z@));
            assert(head + zones_fields(zs.take(j + 1)) =~= head + zones_fields(zs.take(j as int))
                + zone_fields(z@));
        }
        j = j + 1;
    }
    assert(zs.take(zones@.len() as int) =~= zs);
    assert(ids_of(fields@) =~= record_fields(record@));
    encode_fields(&fields)
}

/// The record held by a stored text, or `None` when the text holds none.
pub fn decode_record(text: &str) -> (r: Option<ProviderABaseEvent>)
    ensures
        match r {
            Some(e) => record_of_text(text@) == Some(e@),
            None => record_of_text(text@) is None,
        },
{
    let fields = match decode_fields(text) {
        Some(v) => v,
        None => {
            return None;
        },
    };
    let n = fields.len();
    if n < 9 || (n - 9) % 5 != 0 {
        return None;
    }
    let ghost fs = ids_of(fields@);
    let ghost body = fs.skip(9);
    let count = (n - 9) / 5;
    let mut zones: Vec<Zone> = Vec::new();
    let mut j: usize = 0;
    assert(body.take(0) =~= Seq::<Seq<char>>::empty());
    assert(zones@.map_values(|z: Zone| z@) =~= Seq::<ZoneModel>::empty());
    while j < count
        invariant
            fs == ids_of(fields@),
            body == fs.skip(9),
            n == fields@.len(),
            n >= 9,
            count * 5 == n - 9,
            j <= count,
            zones@.map_values(|z: Zone| z@) == zones_from(body.take(5 * j as int)),
        decreases count - j,
    {
        let at = 9 + 5 * j;
        let z = Zone {
            zone_id: fields[at].clone(),
            capacity: fields[at + 1].clone(),
            price: fields[at + 2].clone(),
            name: fields[at + 3].clone(),
            numbered: is_set_flag(&fields[at + 4]),
        };
        let ghost before = zones@.map_values(|z: Zone| z@);
        zones.push(z);
        proof {
            let t = body.take(5 * j + 5);
            assert(t.take(t.len() - 5) =~= body.take(5 * j as int));
            assert(t.skip(t.len() - 5) =~= body.subrange(5 * j as int, 5 * j + 5));
            assert(zone_from(t.skip(t.len() - 5)) == z@);
            assert(zones@.map_values(|z: Zone| z@) =~= before.push(z@));
        }
        j = j + 1;
    }
    assert(body.take(5 * count as int) =~= body);
    let e = ProviderABaseEvent {
        id: fields[0].clone(),
        title: fields[1].clone(),
        sell_mode: fields[2].clone(),
        plan: Plan {
            plan_start_date: fields[3].clone(),
            plan_end_date: fields[4].clone(),
            plan_id: fields[5].clone(),
            sell_from: fields[6].clone(),
            sell_to: fields[7].clone(),
            sold_out: is_set_flag(&fields[8]),
            zones,
        },
    };
    Some(e)
}

/// A stored text and the instant, in epoch seconds, from which it is expired.
pub struct CachedDetail {
    pub text: String,
    pub expires_at: u128,
}

/// The record stored for member `id` that is still live at `now`, if it decodes.
pub open spec fn detail_of(m: Map<Seq<char>, CachedDetail>, id: Seq<char>, now: u64) -> Option<
    RecordModel,
> {
    let k = detail_key_of(id);
    if m.contains_key(k) && now < m[k].expires_at {
        record_of_text(m[k].text@)
    } else {
        None
    }
}

/// `after` is `before` with the record `r` of member `id` written at `now` to live `ttl` seconds.
pub open spec fn stored(
    before: Map<Seq<char>, CachedDetail>,
    after: Map<Seq<char>, CachedDetail>,
    id: Seq<char>,
    r: RecordModel,
    ttl: u64,
    now: u64,
) -> bool {
    let k = detail_key_of(id);
    &&& after.dom() == before.dom().insert(k)
    &&& after[k].text@ == record_text(r)
    &&& after[k].expires_at == now + ttl
    &&& forall|q: Seq<char>| q != k && #[trigger] before.contains_key(q) ==> after[q] == before[q]
}

/// Writing a record and reading it back at the same instant, before its time to live has run
/// out, gives the record that was written.
pub proof fn lemma_put_then_get(
    before: Map<Seq<char>, CachedDetail>,
    after: Map<Seq<char>, CachedDetail>,
    id: Seq<char>,
    r: RecordModel,
    ttl: u64,
    now: u64,
)
    requires
        stored(before, after, id, r, ttl, now),
        ttl > 0,
    ensures
        detail_of(after, id, now) == Some(r),
{
    lemma_record_round_trip(r);
}

/// The detail cache: serialized records under `detail:` keys, each with an expiry.
/// Members of the interval index do not expire: once a member's record has expired, the
/// member stays in the index as a ghost, and queries leave it out of their results.
pub struct DetailCache {
    pub entries: KeyedTable<CachedDetail>,
}

impl View for DetailCache {
    type V = Map<Seq<char>, CachedDetail>;

    open spec fn view(&self) -> Map<Seq<char>, CachedDetail> {
        self.entries@
    }
}

impl DetailCache {
    pub open spec fn wf(&self) -> bool {
        self.entries.wf()
    }

    pub fn new() -> (r: Self)
        ensures
            r.wf(),
            r@ == Map::<Seq<char>, CachedDetail>::empty(),
    {
        DetailCache { entries: KeyedTable::new() }
    }

    /// Serializes `record` and stores it for member `composite_id`, live for `ttl` seconds
    /// from `now`. A record already stored for the member is replaced.
    pub fn put(&mut self, composite_id: &str, record: &ProviderABaseEvent, ttl: u64, now: u64)
        requires
            old(self).wf(),
        ensures
            final(self).wf(),
            stored(old(self)@, final(self)@, composite_id@, record@, ttl, now),
    {
        let key = detail_key(composite_id);
        let ghost k = key@;
        let text = encode_record(record);
        let entry = CachedDetail { text, expires_at: now as u128 + ttl as u128 };
        self.entries.set(key, entry);
        assert(self@.dom() =~= old(self)@.dom().insert(k));
    }

    /// The record stored for member `composite_id` and still live at `now`. A missing or
    /// expired record is `NotFound` with its key; a stored text that holds no record is
    /// `Error`.
    pub fn get(&self, composite_id: &str, now: u64) -> (r: Result<ProviderABaseEvent, CacheError>)
        requires
            self.wf(),
        ensures
            match r {
                Ok(e) => detail_of(self@, composite_id@, now) == Some(e@),
                Err(CacheError::NotFound(k)) => {
                    &&& k@ == detail_key_of(composite_id@)
                    &&& !(self@.contains_key(k@) && now < self@[k@].expires_at)
                },
                Err(CacheError::Error(_)) => {
                    let k = detail_key_of(composite_id@);
                    &&& self@.contains_key(k)
                    &&& now < self@[k].expires_at
                    &&& record_of_text(self@[k].text@) is None
                },
                Err(_) => false,
            },
    {
        let key = detail_key(composite_id);
        match self.entries.get(&key) {
            Some(entry) => {
                if (now as u128) < entry.expires_at {
                    match decode_record(entry.text.as_str()) {
                        Some(e) => Ok(e),
                        None => Err(CacheError::Error(key)),
                    }
                } else {
                    Err(CacheError::NotFound(key))
                }
            },
            None => Err(CacheError::NotFound(key)),
        }
    }
}

} // verus!
