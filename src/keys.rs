use vstd::prelude::*;

use crate::text::{chars_of, find_char, slice_of};

verus! {

/// The members of the interval index are `{tenant}:{base_id}:{leaf_id}`; the detail record of a
/// member is stored under `detail:{tenant}:{base_id}:{leaf_id}`. The two sorted sets are global,
/// named `start_date` and `end_date`.
pub const DETAIL_PREFIX: &'static str = "detail:";

pub const START_SET: &'static str = "start_date";

pub const END_SET: &'static str = "end_date";

/// A part of a composite identifier: it holds no `:`.
pub open spec fn is_segment(s: Seq<char>) -> bool {
    !s.contains(':')
}

/// The composite identifier of a tenant, a base and a leaf.
pub open spec fn joined(tenant: Seq<char>, base_id: Seq<char>, leaf_id: Seq<char>) -> Seq<char> {
    tenant + seq![':'] + base_id + seq![':'] + leaf_id
}

/// `id` is the composite identifier of some tenant, base and leaf.
pub open spec fn is_composite(id: Seq<char>) -> bool {
    exists|t: Seq<char>, b: Seq<char>, l: Seq<char>|
        is_segment(t) && is_segment(b) && is_segment(l) && #[trigger] joined(t, b, l) == id
}

/// The key of the detail record of member `id`.
pub open spec fn detail_key_of(id: Seq<char>) -> Seq<char> {
    DETAIL_PREFIX@ + id
}

/// The three identifiers that a member of the interval index is made of.
pub struct CompositeId {
    pub tenant: String,
    pub base_id: String,
    pub leaf_id: String,
}

impl CompositeId {
    pub open spec fn wf(&self) -> bool {
        is_segment(self.tenant@) && is_segment(self.base_id@) && is_segment(self.leaf_id@)
    }

    pub open spec fn text(&self) -> Seq<char> {
        joined(self.tenant@, self.base_id@, self.leaf_id@)
    }
}

/// Builds the member name of a tenant, a base and a leaf.
pub fn composite_id(tenant: &str, base_id: &str, leaf_id: &str) -> (r: String)
    ensures
        r@ == joined(tenant@, base_id@, leaf_id@),
{
    let sep = ":";
    proof {
        reveal_strlit(":");
    }
    let r = tenant.to_owned().concat(sep).concat(base_id).concat(sep).concat(leaf_id);
    assert(r@ =~= joined(tenant@, base_id@, leaf_id@));
    r
}

proof fn lemma_first_colon(id: Seq<char>, t: Seq<char>, b: Seq<char>, l: Seq<char>, p: int)
    requires
        is_segment(t),
        is_segment(b),
        joined(t, b, l) == id,
        0 <= p < id.len(),
        id[p] == ':',
        forall|q: int| 0 <= q < p ==> id[q] != ':',
    ensures
        p == t.len(),
{
    assert(id[t.len() as int] == ':');
    if p < t.len() {
        assert(t[p] == id[p]);
        assert(t.contains(':'));
    }
}

proof fn lemma_second_colon(id: Seq<char>, t: Seq<char>, b: Seq<char>, l: Seq<char>, p: int)
    requires
        is_segment(t),
        is_segment(b),
        joined(t, b, l) == id,
        t.len() < p < id.len(),
        id[p] == ':',
        forall|q: int| t.len() < q < p ==> id[q] != ':',
    ensures
        p == t.len() + 1 + b.len(),
{
    assert(id[t.len() as int + 1 + b.len() as int] == ':');
    if p < t.len() + 1 + b.len() {
        assert(b[p - t.len() - 1] == id[p]);
        assert(b.contains(':'));
    }
}

/// Splits a member name into its tenant, base and leaf; `None` when it is not made of exactly
/// three parts separated by `:`.
pub fn parse_composite_id(id: &str) -> (r: Option<CompositeId>)
    ensures
        match r {
            Some(c) => c.wf() && c.text() == id@,
            None => !is_composite(id@),
        },
{
    let chars = chars_of(id);
    let n = chars.len();
    let first = find_char(&chars, ':', 0);
    match first {
        None => {
            proof {
                if is_composite(id@) {
                    let (t, b, l) = choose|t: Seq<char>, b: Seq<char>, l: Seq<char>|
                        is_segment(t) && is_segment(b) && is_segment(l) && #[trigger] joined(t, b, l)
                            == id@;
                    assert(id@[t.len() as int] == ':');
                }
            }
            None
        },
        Some(p1) => {
            let second = find_char(&chars, ':', p1 + 1);
            match second {
                None => {
                    proof {
                        if is_composite(id@) {
                            let (t, b, l) = choose|t: Seq<char>, b: Seq<char>, l: Seq<char>|
                                is_segment(t) && is_segment(b) && is_segment(l) && #[trigger] joined(
                                    t,
                                    b,
                                    l,
                                ) == id@;
                            lemma_first_colon(id@, t, b, l, p1 as int);
                            assert(id@[t.len() as int + 1 + b.len() as int] == ':');
                        }
                    }
                    None
                },
                Some(p2) => {
                    match find_char(&chars, ':', p2 + 1) {
                        Some(p3) => {
                            proof {
                                if is_composite(id@) {
                                    let (t, b, l) = choose|
                                        t: Seq<char>,
                                        b: Seq<char>,
                                        l: Seq<char>,
                                    |
                                        is_segment(t) && is_segment(b) && is_segment(l)
                                            && #[trigger] joined(t, b, l) == id@;
                                    lemma_first_colon(id@, t, b, l, p1 as int);
                                    lemma_second_colon(id@, t, b, l, p2 as int);
                                    assert(l[p3 - p2 - 1] == id@[p3 as int]);
                                    assert(l.contains(':'));
                                }
                            }
                            None
                        },
                        None => {
                            let c = CompositeId {
                                tenant: slice_of(id, 0, p1),
                                base_id: slice_of(id, p1 + 1, p2),
                                leaf_id: slice_of(id, p2 + 1, chars.len()),
                            };
                            proof {
                                assert(c.text() =~= id@);
                                if c.tenant@.contains(':') {
                                    let q = choose|q: int|
                                        0 <= q < c.tenant@.len() && c.tenant@[q] == ':';
                                    assert(chars@[q] == ':');
                                }
                                if c.base_id@.contains(':') {
                                    let q = choose|q: int|
                                        0 <= q < c.base_id@.len() && c.base_id@[q] == ':';
                                    assert(chars@[q + p1 + 1] == ':');
                                }
                                if c.leaf_id@.contains(':') {
                                    let q = choose|q: int|
                                        0 <= q < c.leaf_id@.len() && c.leaf_id@[q] == ':';
                                    assert(chars@[q + p2 + 1] == ':');
                                }
                            }
                            Some(c)
                        },
                    }
                },
            }
        },
    }
}

/// The key under which the detail record of member `id` is stored.
pub fn detail_key(id: &str) -> (r: String)
    ensures
        r@ == detail_key_of(id@),
{
    DETAIL_PREFIX.to_owned().concat(id)
}

/// Splitting the name built from three segments gives the three segments back.
pub proof fn lemma_composite_round_trip(tenant: Seq<char>, base_id: Seq<char>, leaf_id: Seq<char>)
    requires
        is_segment(tenant),
        is_segment(base_id),
        is_segment(leaf_id),
    ensures
        is_composite(joined(tenant, base_id, leaf_id)),
        forall|c: CompositeId|
            c.wf() && #[trigger] c.text() == joined(tenant, base_id, leaf_id) ==> c.tenant@ == tenant
                && c.base_id@ == base_id && c.leaf_id@ == leaf_id,
{
    let id = joined(tenant, base_id, leaf_id);
    assert(is_segment(tenant) && is_segment(base_id) && is_segment(leaf_id) && joined(
        tenant,
        base_id,
        leaf_id,
    ) == id);
    assert forall|c: CompositeId|
        c.wf() && #[trigger] c.text() == id implies c.tenant@ == tenant && c.base_id@ == base_id
            && c.leaf_id@ == leaf_id by {
        let t = c.tenant@;
        let tl = t.len() as int;
        let b = c.base_id@;
        let bl = b.len() as int;
        assert forall|q: int| 0 <= q < tl implies id[q] != ':' by {
            assert(t[q] == id[q]);
        }
        lemma_first_colon(id, tenant, base_id, leaf_id, tl);
        assert forall|q: int| tl < q < tl + 1 + bl implies id[q] != ':' by {
            assert(b[q - tl - 1] == id[q]);
        }
        lemma_second_colon(id, tenant, base_id, leaf_id, tl + 1 + bl);
        assert(t =~= id.subrange(0, tl as int));
        assert(tenant =~= id.subrange(0, tl as int));
        assert(b =~= id.subrange(tl + 1, tl + 1 + bl));
        assert(base_id =~= id.subrange(tl + 1, tl + 1 + bl));
        assert(c.leaf_id@ =~= id.subrange(tl + 2 + bl, id.len() as int));
        assert(leaf_id =~= id.subrange(tl + 2 + bl, id.len() as int));
    }
}

} // verus!
