//! The campaign and pledge ledgers: creation, update, paginated listing,
//! ownership scoping, and append-only pledge records.
//!
//! The campaign store is kept sorted most-recently-created first (creation
//! time descending, ties broken towards the higher, i.e. later-assigned,
//! id), so a listing page is exactly a contiguous slice of the store.

use crate::errors::ApiError;
use crate::models::{Campaign, CampaignData, Pledge, PledgeData};
use vstd::prelude::*;

verus! {

/// Listing parameters; `page` is 1-based. Defaults are page 1, limit 10.
pub struct Pagination {
    pub page: Option<u32>,
    pub limit: Option<u32>,
}

/// The page number actually used: the given one, or 1.
pub open spec fn spec_page(q: Pagination) -> u32 {
    match q.page {
        Option::Some(p) => p,
        Option::None => 1,
    }
}

/// The page size actually used: the given one, or 10.
pub open spec fn spec_limit(q: Pagination) -> u32 {
    match q.limit {
        Option::Some(l) => l,
        Option::None => 10,
    }
}

/// `a` was created more recently than `b`: a later creation time, or the
/// same time and a later-assigned (higher) id.
pub open spec fn more_recent(a: Campaign, b: Campaign) -> bool {
    a.created_at > b.created_at || (a.created_at == b.created_at && a.id > b.id)
}

/// The campaign store, sorted most-recently-created first.
pub struct CampaignLedger {
    pub campaigns: Vec<Campaign>,
    pub next_id: u64,
}

impl CampaignLedger {
    /// Strictly ordered by recency (so ids are also pairwise distinct),
    /// with every id below `next_id`.
    pub open spec fn wf(self) -> bool {
        (forall|i: int, j: int|
            0 <= i < j < self.campaigns@.len() ==> more_recent(
                self.campaigns@[i],
                self.campaigns@[j],
            ) && self.campaigns@[i].id != self.campaigns@[j].id)
            && (forall|i: int|
            0 <= i < self.campaigns@.len() ==> #[trigger] self.campaigns@[i].id < self.next_id)
    }

    pub fn new() -> (r: Self)
        ensures
            r.wf(),
            r.campaigns@.len() == 0,
            r.next_id == 1,
    {
        CampaignLedger { campaigns: Vec::new(), next_id: 1 }
    }
}

/// The append-only pledge ledger.
pub struct PledgeLedger {
    pub pledges: Vec<Pledge>,
    pub next_id: u64,
}

impl PledgeLedger {
    /// Ids are assigned in strictly increasing order below `next_id`.
    pub open spec fn wf(self) -> bool {
        (forall|i: int, j: int|
            0 <= i < j < self.pledges@.len() ==> self.pledges@[i].id < self.pledges@[j].id)
            && (forall|i: int|
            0 <= i < self.pledges@.len() ==> #[trigger] self.pledges@[i].id < self.next_id)
    }

    pub fn new() -> (r: Self)
        ensures
            r.wf(),
            r.pledges@.len() == 0,
            r.next_id == 1,
    {
        PledgeLedger { pledges: Vec::new(), next_id: 1 }
    }
}

/// The slice of the store that a 1-based page selects:
/// `offset = (page - 1) * limit`, clamped to the store's length.
pub open spec fn page_of(campaigns: Seq<Campaign>, page: u32, limit: u32) -> Seq<Campaign>
    recommends
        page >= 1,
{
    let len = campaigns.len() as int;
    let off0 = (page - 1) * limit;
    let off = if off0 > len {
        len
    } else {
        off0
    };
    let end = if off + limit > len {
        len
    } else {
        off + limit
    };
    campaigns.subrange(off, end)
}

/// The campaigns owned by `owner_id`, in store (recency) order.
pub open spec fn owned_campaigns(campaigns: Seq<Campaign>, owner_id: u64) -> Seq<Campaign> {
    campaigns.filter(|c: Campaign| c.owner_id == owner_id)
}

/// `user_id` has pledged against campaign `campaign_id`.
pub open spec fn has_pledge(pledges: Seq<Pledge>, user_id: u64, campaign_id: u64) -> bool {
    exists|j: int|
        0 <= j < pledges.len() && pledges[j].user_id == user_id && pledges[j].campaign_id
            == campaign_id
}

/// The distinct campaigns `user_id` has pledged to, in store (recency)
/// order; distinct because the store holds each campaign once.
pub open spec fn pledged_campaigns(
    campaigns: Seq<Campaign>,
    pledges: Seq<Pledge>,
    user_id: u64,
) -> Seq<Campaign> {
    campaigns.filter(|c: Campaign| has_pledge(pledges, user_id, c.id))
}

proof fn lemma_owned_push(s: Seq<Campaign>, x: Campaign, owner_id: u64)
    ensures
        owned_campaigns(s.push(x), owner_id) == if x.owner_id == owner_id {
            owned_campaigns(s, owner_id).push(x)
        } else {
            owned_campaigns(s, owner_id)
        },
{
    reveal(Seq::filter);
    assert(s.push(x).drop_last() =~= s);
    assert(s.push(x).last() == x);
}

proof fn lemma_pledged_push(s: Seq<Campaign>, x: Campaign, pledges: Seq<Pledge>, user_id: u64)
    ensures
        pledged_campaigns(s.push(x), pledges, user_id) == if has_pledge(pledges, user_id, x.id) {
            pledged_campaigns(s, pledges, user_id).push(x)
        } else {
            pledged_campaigns(s, pledges, user_id)
        },
{
    reveal(Seq::filter);
    assert(s.push(x).drop_last() =~= s);
    assert(s.push(x).last() == x);
}

/// Law: a campaign on the ledger that `owner_id` owns appears in the
/// owner's listing — in particular a freshly created campaign, with its
/// title, description and goal exactly as supplied, shows up in an
/// immediately following `list_owned` for the same owner.
pub proof fn lemma_owned_campaign_listed(campaigns: Seq<Campaign>, c: Campaign, owner_id: u64)
    requires
        campaigns.contains(c),
        c.owner_id == owner_id,
    ensures
        owned_campaigns(campaigns, owner_id).contains(c),
    decreases campaigns.len(),
{
    reveal(Seq::filter);
    if campaigns.len() > 0 {
        if campaigns.last() == c {
            assert(owned_campaigns(campaigns, owner_id).last() == c);
        } else {
            let i = choose|i: int| 0 <= i < campaigns.len() && campaigns[i] == c;
            assert(campaigns.drop_last()[i] == c);
            assert(campaigns.drop_last().contains(c));
            lemma_owned_campaign_listed(campaigns.drop_last(), c, owner_id);
            let rest = owned_campaigns(campaigns.drop_last(), owner_id);
            let k = choose|k: int| 0 <= k < rest.len() && rest[k] == c;
            if campaigns.last().owner_id == owner_id {
                assert(owned_campaigns(campaigns, owner_id)[k] == c);
            }
        }
    }
}

/// Paginated listing, most recently created first. With the 1-based page
/// and the limit (defaulted to 1 and 10 when absent), the result is
/// exactly the store's slice `[(page-1)*limit, (page-1)*limit + limit)`,
/// clamped to the store's length.
pub fn list(ledger: &CampaignLedger, query: &Pagination) -> (r: Vec<Campaign>)
    requires
        match query.page {
            Option::Some(p) => p >= 1,
            Option::None => true,
        },
    ensures
        r@ == page_of(ledger.campaigns@, spec_page(*query), spec_limit(*query)),
{
    let page: u32 = match query.page {
        Option::Some(p) => p,
        Option::None => 1,
    };
    let limit: u32 = match query.limit {
        Option::Some(l) => l,
        Option::None => 10,
    };
    let len: usize = ledger.campaigns.len();
    proof {
        assert((page - 1) as u64 * (limit as u64) <= 0xffff_fffe_0000_0001u64) by (nonlinear_arith)
            requires
                1 <= page <= 0xffff_ffffu32,
                limit <= 0xffff_ffffu32,
        ;
    }
    let off64: u64 = (page as u64 - 1) * (limit as u64);
    let off: usize = if off64 >= len as u64 {
        len
    } else {
        off64 as usize
    };
    let remaining: usize = len - off;
    let take: usize = if (limit as u64) < (remaining as u64) {
        limit as usize
    } else {
        remaining
    };
    let end: usize = off + take;
    let mut r: Vec<Campaign> = Vec::new();
    let mut i: usize = off;
    proof {
        assert(r@ =~= ledger.campaigns@.subrange(off as int, off as int));
    }
    while i < end
        invariant
            off <= i <= end <= ledger.campaigns@.len(),
            r@ == ledger.campaigns@.subrange(off as int, i as int),
        decreases end - i,
    {
        r.push(ledger.campaigns[i].clone());
        proof {
            assert(ledger.campaigns@.subrange(off as int, i + 1) =~= ledger.campaigns@.subrange(
                off as int,
                i as int,
            ).push(ledger.campaigns@[i as int]));
        }
        i += 1;
    }
    proof {
        assert(r@ == page_of(ledger.campaigns@, spec_page(*query), spec_limit(*query)));
    }
    r
}

/// Creates a campaign: the returned record carries the freshly assigned
/// id, the supplied owner, title, description and goal, and `now` as its
/// creation time, and the store is the old store with that record placed
/// at its position in recency order.
pub fn create(ledger: &mut CampaignLedger, owner_id: u64, data: &CampaignData, now: u64) -> (r:
    Campaign)
    requires
        old(ledger).wf(),
        old(ledger).next_id < u64::MAX,
    ensures
        final(ledger).wf(),
        r.id == old(ledger).next_id,
        r.owner_id == owner_id,
        r.title@ == data.title@,
        r.description@ == data.description@,
        r.goal_amount == data.goal_amount,
        r.created_at == now,
        final(ledger).next_id == old(ledger).next_id + 1,
        exists|p: int|
            0 <= p <= old(ledger).campaigns@.len() && final(ledger).campaigns@ == old(
                ledger,
            ).campaigns@.insert(p, r),
        final(ledger).campaigns@.contains(r),
{
    let n = ledger.campaigns.len();
    let mut i: usize = 0;
    while i < n && ledger.campaigns[i].created_at > now
        invariant
            i <= n,
            n == ledger.campaigns@.len(),
            forall|k: int| 0 <= k < i ==> #[trigger] ledger.campaigns@[k].created_at > now,
        decreases n - i,
    {
        i += 1;
    }
    let c = Campaign {
        id: ledger.next_id,
        owner_id,
        title: data.title.clone(),
        description: data.description.clone(),
        goal_amount: data.goal_amount,
        created_at: now,
    };
    ledger.campaigns.insert(i, c.clone());
    ledger.next_id = ledger.next_id + 1;
    proof {
        let t = ledger.campaigns@;
        let olds = old(ledger).campaigns@;
        olds.insert_ensures(i as int, c);
        assert(t == olds.insert(i as int, c));
        assert forall|a: int, b: int| 0 <= a < b < t.len() implies more_recent(t[a], t[b]) && t[a].id
            != t[b].id by {
            if b < i {
                assert(t[a] == olds[a] && t[b] == olds[b]);
                assert(more_recent(olds[a], olds[b]) && olds[a].id != olds[b].id);
            } else if b == i {
                assert(t[a] == olds[a] && t[b] == c);
                assert(olds[a].created_at > now);
                assert(olds[a].id < old(ledger).next_id);
            } else if a < i {
                assert(t[a] == olds[a] && t[b] == olds[b - 1]);
                assert(more_recent(olds[a], olds[b - 1]) && olds[a].id != olds[b - 1].id);
            } else if a == i {
                assert(t[a] == c && t[b] == olds[b - 1]);
                assert(i <= b - 1 < olds.len());
                assert(olds[b - 1].id < old(ledger).next_id);
                assert(olds[i as int].created_at <= now);
                if i < b - 1 {
                    assert(more_recent(olds[i as int], olds[b - 1]));
                }
            } else {
                assert(t[a] == olds[a - 1] && t[b] == olds[b - 1]);
                assert(more_recent(olds[a - 1], olds[b - 1]) && olds[a - 1].id != olds[b - 1].id);
            }
        }
        assert(t[i as int] == c);
        assert(t.contains(c));
    }
    c
}

/// Full replace of the three mutable fields of the campaign with this id;
/// its id, owner and creation time are immutable and keep their values.
/// `NotFound` exactly when no campaign carries the id, and then nothing
/// changes.
pub fn update(ledger: &mut CampaignLedger, id: u64, data: &CampaignData) -> (r: Result<
    Campaign,
    ApiError,
>)
    requires
        old(ledger).wf(),
    ensures
        final(ledger).wf(),
        final(ledger).next_id == old(ledger).next_id,
        match r {
            Result::Ok(c) => exists|i: int|
                0 <= i < old(ledger).campaigns@.len() && #[trigger] old(ledger).campaigns@[i].id
                    == id && c.id == id && c.owner_id == old(ledger).campaigns@[i].owner_id
                    && c.created_at == old(ledger).campaigns@[i].created_at && c.title@
                    == data.title@ && c.description@ == data.description@ && c.goal_amount
                    == data.goal_amount && final(ledger).campaigns@ == old(
                    ledger,
                ).campaigns@.update(i, c),
            Result::Err(e) => e == ApiError::NotFound && (forall|i: int|
                0 <= i < old(ledger).campaigns@.len() ==> #[trigger] old(
                    ledger,
                ).campaigns@[i].id != id) && *final(ledger) == *old(ledger),
        },
{
    let n = ledger.campaigns.len();
    let mut i: usize = 0;
    while i < n && ledger.campaigns[i].id != id
        invariant
            i <= n,
            n == ledger.campaigns@.len(),
            forall|k: int| 0 <= k < i ==> #[trigger] ledger.campaigns@[k].id != id,
        decreases n - i,
    {
        i += 1;
    }
    if i == n {
        return Err(ApiError::NotFound);
    }
    let old_c = ledger.campaigns.remove(i);
    let c = Campaign {
        id: old_c.id,
        owner_id: old_c.owner_id,
        title: data.title.clone(),
        description: data.description.clone(),
        goal_amount: data.goal_amount,
        created_at: old_c.created_at,
    };
    ledger.campaigns.insert(i, c.clone());
    proof {
        let t = ledger.campaigns@;
        let olds = old(ledger).campaigns@;
        assert(old_c == olds[i as int]);
        assert(t =~= olds.update(i as int, c));
        assert forall|a: int, b: int| 0 <= a < b < t.len() implies more_recent(t[a], t[b]) && t[a].id
            != t[b].id by {
            assert(more_recent(olds[a], olds[b]) && olds[a].id != olds[b].id);
            assert(t[a] == if a == i { c } else { olds[a] });
            assert(t[b] == if b == i { c } else { olds[b] });
        }
    }
    Ok(c)
}

/// Records a pledge: an append-only entry with a freshly assigned id (no
/// prior pledge carries it), exactly the supplied campaign, account and
/// amount, and `now` as its timestamp. Nothing validates that the
/// campaign exists or that the amount is positive; any amount is
/// accepted.
pub fn pledge(ledger: &mut PledgeLedger, campaign_id: u64, user_id: u64, data: &PledgeData, now: u64) -> (r: Pledge)
    requires
        old(ledger).wf(),
        old(ledger).next_id < u64::MAX,
    ensures
        final(ledger).wf(),
        r.id == old(ledger).next_id,
        r.user_id == user_id,
        r.campaign_id == campaign_id,
        r.amount == data.amount,
        r.pledged_at == now,
        final(ledger).pledges@ == old(ledger).pledges@.push(r),
        final(ledger).next_id == old(ledger).next_id + 1,
        forall|i: int|
            0 <= i < old(ledger).pledges@.len() ==> #[trigger] old(ledger).pledges@[i].id != r.id,
{
    let p = Pledge {
        id: ledger.next_id,
        user_id,
        campaign_id,
        amount: data.amount,
        pledged_at: now,
    };
    let ghost s = ledger.pledges@;
    ledger.pledges.push(p.clone());
    ledger.next_id = ledger.next_id + 1;
    proof {
        assert forall|a: int, b: int| 0 <= a < b < ledger.pledges@.len() implies ledger.pledges@[a].id
            < ledger.pledges@[b].id by {
            if b < ledger.pledges@.len() - 1 {
                assert(ledger.pledges@[a] == s[a] && ledger.pledges@[b] == s[b]);
            } else {
                assert(ledger.pledges@[a] == s[a]);
            }
        }
    }
    p
}

/// The campaigns owned by `user_id`, most recently created first.
pub fn list_owned(ledger: &CampaignLedger, user_id: u64) -> (r: Vec<Campaign>)
    ensures
        r@ == owned_campaigns(ledger.campaigns@, user_id),
{
    let n = ledger.campaigns.len();
    let mut r: Vec<Campaign> = Vec::new();
    let mut i: usize = 0;
    proof {
        reveal(Seq::filter);
        assert(ledger.campaigns@.subrange(0, 0) =~= Seq::<Campaign>::empty());
        assert(r@ =~= owned_campaigns(ledger.campaigns@.subrange(0, 0), user_id));
    }
    while i < n
        invariant
            i <= n,
            n == ledger.campaigns@.len(),
            r@ == owned_campaigns(ledger.campaigns@.subrange(0, i as int), user_id),
        decreases n - i,
    {
        let c = &ledger.campaigns[i];
        proof {
            assert(ledger.campaigns@.subrange(0, i + 1) =~= ledger.campaigns@.subrange(
                0,
                i as int,
            ).push(ledger.campaigns@[i as int]));
            lemma_owned_push(
                ledger.campaigns@.subrange(0, i as int),
                ledger.campaigns@[i as int],
                user_id,
            );
        }
        if c.owner_id == user_id {
            r.push(c.clone());
        }
        i += 1;
    }
    proof {
        assert(ledger.campaigns@.subrange(0, n as int) =~= ledger.campaigns@);
    }
    r
}

/// The sum of all pledge amounts recorded against `campaign_id`. The total
/// is never stored; it is derived from the ledger alone.
pub open spec fn sum_pledged(pledges: Seq<Pledge>, campaign_id: u64) -> int
    decreases pledges.len(),
{
    if pledges.len() == 0 {
        0
    } else {
        sum_pledged(pledges.drop_last(), campaign_id) + if pledges.last().campaign_id
            == campaign_id {
            pledges.last().amount as int
        } else {
            0
        }
    }
}

/// A campaign's accumulated total: the sum, in minor units, of every pledge
/// recorded against it.
pub fn total_pledged(pledges: &PledgeLedger, campaign_id: u64) -> (r: u128)
    ensures
        r == sum_pledged(pledges.pledges@, campaign_id),
{
    let n = pledges.pledges.len();
    let mut r: u128 = 0;
    let mut i: usize = 0;
    proof {
        assert(pledges.pledges@.subrange(0, 0) =~= Seq::<Pledge>::empty());
    }
    while i < n
        invariant
            i <= n,
            n == pledges.pledges@.len(),
            r == sum_pledged(pledges.pledges@.subrange(0, i as int), campaign_id),
            r <= i * 0xffff_ffff_ffff_ffffu64,
        decreases n - i,
    {
        let p = &pledges.pledges[i];
        proof {
            assert(pledges.pledges@.subrange(0, i + 1).drop_last() =~= pledges.pledges@.subrange(
                0,
                i as int,
            ));
            assert(pledges.pledges@.subrange(0, i + 1).last() == pledges.pledges@[i as int]);
        }
        if p.campaign_id == campaign_id {
            r = r + p.amount as u128;
        }
        i += 1;
    }
    proof {
        assert(pledges.pledges@.subrange(0, n as int) =~= pledges.pledges@);
    }
    r
}

fn user_pledged(pledges: &PledgeLedger, user_id: u64, campaign_id: u64) -> (b: bool)
    ensures
        b == has_pledge(pledges.pledges@, user_id, campaign_id),
{
    let n = pledges.pledges.len();
    let mut i: usize = 0;
    while i < n
        invariant
            i <= n,
            n == pledges.pledges@.len(),
            forall|k: int|
                0 <= k < i ==> !(#[trigger] pledges.pledges@[k].user_id == user_id
                    && pledges.pledges@[k].campaign_id == campaign_id),
        decreases n - i,
    {
        let p = &pledges.pledges[i];
        if p.user_id == user_id && p.campaign_id == campaign_id {
            return true;
        }
        i += 1;
    }
    false
}

/// The distinct campaigns `user_id` has pledged to, most recently created
/// first; each appears once however many pledges the account has made
/// against it, since the store holds each campaign once.
pub fn list_pledged(ledger: &CampaignLedger, pledges: &PledgeLedger, user_id: u64) -> (r: Vec<
    Campaign,
>)
    ensures
        r@ == pledged_campaigns(ledger.campaigns@, pledges.pledges@, user_id),
{
    let n = ledger.campaigns.len();
    let mut r: Vec<Campaign> = Vec::new();
    let mut i: usize = 0;
    proof {
        reveal(Seq::filter);
        assert(ledger.campaigns@.subrange(0, 0) =~= Seq::<Campaign>::empty());
        assert(r@ =~= pledged_campaigns(
            ledger.campaigns@.subrange(0, 0),
            pledges.pledges@,
            user_id,
        ));
    }
    while i < n
        invariant
            i <= n,
            n == ledger.campaigns@.len(),
            r@ == pledged_campaigns(
                ledger.campaigns@.subrange(0, i as int),
                pledges.pledges@,
                user_id,
            ),
        decreases n - i,
    {
        let c = &ledger.campaigns[i];
        proof {
            assert(ledger.campaigns@.subrange(0, i + 1) =~= ledger.campaigns@.subrange(
                0,
                i as int,
            ).push(ledger.campaigns@[i as int]));
            lemma_pledged_push(
                ledger.campaigns@.subrange(0, i as int),
                ledger.campaigns@[i as int],
                pledges.pledges@,
                user_id,
            );
        }
        if user_pledged(pledges, user_id, c.id) {
            r.push(c.clone());
        }
        i += 1;
    }
    proof {
        assert(ledger.campaigns@.subrange(0, n as int) =~= ledger.campaigns@);
    }
    r
}

} // verus!
