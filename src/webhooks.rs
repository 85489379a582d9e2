//! The webhook discovery cache: per channel, the webhooks found remotely,
//! sorted by id, and the rule that picks the system's own webhook from them.
use vstd::prelude::*;
use vstd::multiset::Multiset;
use vstd::seq_lib::to_multiset_insert;

use crate::concurrent::{
    webhook_contents, webhook_map_get, webhook_map_insert, webhook_map_new, webhook_map_remove,
    WebhookMap,
};

verus! {

broadcast use vstd::seq_lib::group_to_multiset_ensures;

/// How many webhooks a channel may hold before no new one can be created.
pub const WEBHOOK_LIMIT: usize = 10;

/// A webhook as the cache keeps it.
#[derive(Clone, Debug)]
pub struct CachedWebhook {
    pub id: u64,
    pub application_id: Option<u64>,
    pub token: Option<String>,
}

/// Ascending by id.
pub open spec fn sorted_by_id(s: Seq<CachedWebhook>) -> bool {
    forall|i: int, j: int| 0 <= i < j < s.len() ==> #[trigger] s[i].id <= #[trigger] s[j].id
}

/// Owned by the application `app`.
pub open spec fn is_first_party(w: CachedWebhook, app: u64) -> bool {
    w.application_id == Some(app)
}

/// The first webhook of `s` that `app` owns.
pub open spec fn first_party_in(s: Seq<CachedWebhook>, app: u64) -> Option<CachedWebhook>
    decreases s.len(),
{
    if s.len() == 0 {
        None
    } else if is_first_party(s[0], app) {
        Some(s[0])
    } else {
        first_party_in(s.drop_first(), app)
    }
}

/// What the system does for a channel whose webhooks are `s`.
pub enum WebhookChoice {
    /// Use this webhook, which the system's application owns.
    Existing(CachedWebhook),
    /// None is owned and there is room: create one.
    Create,
    /// None is owned and the channel is full.
    LimitReached,
}

pub open spec fn choice_of(s: Seq<CachedWebhook>, app: u64) -> WebhookChoice {
    match first_party_in(s, app) {
        Some(w) => WebhookChoice::Existing(w),
        None => if s.len() < WEBHOOK_LIMIT {
            WebhookChoice::Create
        } else {
            WebhookChoice::LimitReached
        },
    }
}

/// Sorts webhooks by ascending id, keeping every one of them.
pub fn sort_webhooks(v: Vec<CachedWebhook>) -> (r: Vec<CachedWebhook>)
    ensures
        sorted_by_id(r@),
        r@.to_multiset() == v@.to_multiset(),
{
    let ghost all = v@;
    let mut rest = v;
    let mut out: Vec<CachedWebhook> = Vec::new();
    while rest.len() > 0
        invariant
            sorted_by_id(out@),
            out@.to_multiset().add(rest@.to_multiset()) == all.to_multiset(),
        decreases rest.len(),
    {
        let ghost before = rest@;
        let w = rest.remove(0);
        proof {
            assert(before =~= rest@.insert(0, w));
            to_multiset_insert(rest@, 0, w);
        }
        let mut j: usize = 0;
        while j < out.len() && out[j].id <= w.id
            invariant
                j <= out.len(),
                forall|k: int| 0 <= k < j ==> #[trigger] out@[k].id <= w.id,
            decreases out.len() - j,
        {
            j += 1;
        }
        let ghost prev = out@;
        out.insert(j, w);
        proof {
            to_multiset_insert(prev, j as int, w);
            assert forall|a: int, b: int| 0 <= a < b < out@.len() implies #[trigger] out@[a].id
                <= #[trigger] out@[b].id by {
                if b < j {
                } else if a > j {
                    assert(out@[a] == prev[a - 1] && out@[b] == prev[b - 1]);
                } else if a == j {
                    assert(j < prev.len() && prev[j as int].id > w.id);
                    assert(out@[b] == prev[b - 1]);
                } else {
                    assert(out@[a] == prev[a]);
                }
            }
        }
    }
    proof {
        assert(rest@.to_multiset() =~= Multiset::empty());
        assert(out@.to_multiset().add(Multiset::empty()) =~= out@.to_multiset());
    }
    out
}

/// Picks the webhook to use from a channel's list: the first one that the
/// application `app` owns; else a new one, while the channel has fewer than
/// `WEBHOOK_LIMIT`; else the limit is reached. Another application's webhook
/// is never picked.
pub fn choose_webhook(hooks: Vec<CachedWebhook>, app: u64) -> (r: WebhookChoice)
    ensures
        r == choice_of(hooks@, app),
{
    let ghost all = hooks@;
    let count = hooks.len();
    let mut i: usize = 0;
    assert(all.subrange(0, all.len() as int) =~= all);
    while i < hooks.len()
        invariant
            hooks@ == all,
            i <= all.len(),
            first_party_in(all, app) == first_party_in(all.subrange(i as int, all.len() as int), app),
        decreases all.len() - i,
    {
        let ghost tail = all.subrange(i as int, all.len() as int);
        if hooks[i].application_id == Some(app) {
            let mut hooks = hooks;
            let w = hooks.remove(i);
            return WebhookChoice::Existing(w);
        }
        assert(tail.drop_first() =~= all.subrange(i + 1, all.len() as int));
        i += 1;
    }
    if count < WEBHOOK_LIMIT {
        WebhookChoice::Create
    } else {
        WebhookChoice::LimitReached
    }
}

/// In a list sorted by id, the first owned webhook is an owned one of least id.
pub proof fn lemma_first_party_least(s: Seq<CachedWebhook>, app: u64)
    requires
        sorted_by_id(s),
    ensures
        first_party_in(s, app) is None ==> forall|v: CachedWebhook|
            s.contains(v) ==> !is_first_party(v, app),
        first_party_in(s, app) is Some ==> {
            let w = first_party_in(s, app)->0;
            &&& s.contains(w)
            &&& is_first_party(w, app)
            &&& forall|v: CachedWebhook| s.contains(v) && is_first_party(v, app) ==> w.id <= v.id
        },
    decreases s.len(),
{
    if s.len() > 0 {
        let t = s.drop_first();
        assert(sorted_by_id(t)) by {
            assert forall|i: int, j: int| 0 <= i < j < t.len() implies #[trigger] t[i].id
                <= #[trigger] t[j].id by {
                assert(t[i] == s[i + 1] && t[j] == s[j + 1]);
            }
        }
        lemma_first_party_least(t, app);
        assert forall|v: CachedWebhook| s.contains(v) && v != s[0] implies t.contains(v) by {
            let k = choose|k: int| 0 <= k < s.len() && s[k] == v;
            assert(k > 0);
            assert(t[k - 1] == v);
        }
        if is_first_party(s[0], app) {
            assert(s.contains(s[0]));
            assert forall|v: CachedWebhook| s.contains(v) && is_first_party(v, app) implies s[0].id
                <= v.id by {
                let k = choose|k: int| 0 <= k < s.len() && s[k] == v;
                if k > 0 {
                    assert(s[0].id <= s[k].id);
                }
            }
        } else if first_party_in(t, app) is Some {
            let w = first_party_in(t, app)->0;
            let k = choose|k: int| 0 <= k < t.len() && t[k] == w;
            assert(s[k + 1] == w);
        }
    }
}

/// Two fetches of one channel's webhooks that return the same webhooks in any
/// order lead, once each is sorted by id, to the same choice, provided that no
/// two webhooks share an id.
pub proof fn lemma_choice_is_order_independent(
    a: Seq<CachedWebhook>,
    b: Seq<CachedWebhook>,
    sorted_a: Seq<CachedWebhook>,
    sorted_b: Seq<CachedWebhook>,
    app: u64,
)
    requires
        a.to_multiset() == b.to_multiset(),
        forall|x: CachedWebhook, y: CachedWebhook|
            a.contains(x) && a.contains(y) && x.id == y.id ==> x == y,
        sorted_by_id(sorted_a),
        sorted_a.to_multiset() == a.to_multiset(),
        sorted_by_id(sorted_b),
        sorted_b.to_multiset() == b.to_multiset(),
    ensures
        choice_of(sorted_a, app) == choice_of(sorted_b, app),
{
    lemma_first_party_least(sorted_a, app);
    lemma_first_party_least(sorted_b, app);
    a.to_multiset_ensures();
    sorted_a.to_multiset_ensures();
    sorted_b.to_multiset_ensures();
    assert forall|v: CachedWebhook| sorted_a.contains(v) <==> a.contains(v) by {
        assert(sorted_a.to_multiset().count(v) == a.to_multiset().count(v));
        assert(sorted_a.contains(v) <==> sorted_a.to_multiset().count(v) > 0);
        assert(a.contains(v) <==> a.to_multiset().count(v) > 0);
    }
    assert forall|v: CachedWebhook| sorted_b.contains(v) <==> a.contains(v) by {
        assert(sorted_b.to_multiset().count(v) == a.to_multiset().count(v));
        assert(sorted_b.contains(v) <==> sorted_b.to_multiset().count(v) > 0);
        assert(a.contains(v) <==> a.to_multiset().count(v) > 0);
    }
    assert(sorted_a.len() == sorted_b.len()) by {
        assert(sorted_a.to_multiset().len() == sorted_b.to_multiset().len());
    }
    let fa = first_party_in(sorted_a, app);
    let fb = first_party_in(sorted_b, app);
    if fa is Some {
        assert(sorted_b.contains(fa->0));
        let wb = fb->0;
        assert(sorted_a.contains(wb));
    } else if fb is Some {
        assert(sorted_a.contains(fb->0));
    }
}

/// The lazily filled cache of each channel's webhooks.
pub struct WebhookCache {
    map: WebhookMap,
}

impl View for WebhookCache {
    type V = Map<u64, Seq<CachedWebhook>>;

    closed spec fn view(&self) -> Map<u64, Seq<CachedWebhook>> {
        webhook_contents(self.map)
    }
}

impl WebhookCache {
    pub fn new() -> (r: WebhookCache)
        ensures
            r@.dom().is_empty(),
    {
        WebhookCache { map: webhook_map_new() }
    }

    /// The list stored for a channel, verbatim; `None` on a miss.
    pub fn cached_webhooks_for_channel(&self, channel_id: u64) -> (r: Option<Vec<CachedWebhook>>)
        ensures
            r is None <==> !self@.contains_key(channel_id),
            r is Some ==> r->0@ == self@[channel_id],
    {
        webhook_map_get(&self.map, channel_id)
    }

    /// Stores what a fetch returned for a channel, sorted by id, in place of
    /// whatever was held, and returns the stored list.
    pub fn insert_fetched_webhooks(&mut self, channel_id: u64, fetched: Vec<CachedWebhook>) -> (r:
        Vec<CachedWebhook>)
        ensures
            sorted_by_id(r@),
            r@.to_multiset() == fetched@.to_multiset(),
            final(self)@ == old(self)@.insert(channel_id, r@),
    {
        let sorted = sort_webhooks(fetched);
        webhook_map_insert(&mut self.map, channel_id, sorted);
        let stored = webhook_map_get(&self.map, channel_id);
        stored.unwrap()
    }

    /// Evicts a channel's entry; the next access fetches again.
    pub fn delete_webhooks_for_channel(&mut self, channel_id: u64)
        ensures
            final(self)@ == old(self)@.remove(channel_id),
    {
        webhook_map_remove(&mut self.map, channel_id);
    }
}

} // verus!
