use vstd::prelude::*;

use crate::sample::{Sample, SampleView};

verus! {

/// A subscriber's mailbox as seen in contracts.
pub open spec fn mailbox_view(m: Option<Sample>) -> Option<SampleView> {
    match m {
        Some(s) => Some(s@),
        None => None,
    }
}

/// The hub after a publish of `s`: every live subscriber's mailbox holds
/// exactly `s`, whatever it held before; nobody joins or leaves.
pub open spec fn published(m: Map<u64, Option<SampleView>>, s: SampleView) -> Map<
    u64,
    Option<SampleView>,
> {
    Map::new(|id: u64| m.contains_key(id), |id: u64| Some(s))
}

/// The handle a connection holds for its subscription.
pub struct Subscription {
    id: u64,
}

impl View for Subscription {
    type V = u64;

    closed spec fn view(&self) -> u64 {
        self.id
    }
}

impl Subscription {
    /// The handle's number; no two live subscriptions of a hub share one.
    pub fn id(&self) -> (r: u64)
        ensures
            r == self@,
    {
        self.id
    }
}

struct Slot {
    id: u64,
    mailbox: Option<Sample>,
}

/// The fan-out point between one producer and any number of subscribers.
///
/// Each live subscriber has a mailbox of one slot. Publishing overwrites
/// every mailbox with the new sample; taking empties one. Its view maps each
/// live subscription to the content of its mailbox.
pub struct Hub {
    slots: Vec<Slot>,
    next_id: u64,
}

impl View for Hub {
    type V = Map<u64, Option<SampleView>>;

    closed spec fn view(&self) -> Map<u64, Option<SampleView>> {
        Map::new(
            |id: u64| self.has_slot(id),
            |id: u64| mailbox_view(self.slots@[self.index_of(id)].mailbox),
        )
    }
}

impl Hub {
    spec fn has_slot(&self, id: u64) -> bool {
        exists|i: int| 0 <= i < self.slots@.len() && self.slots@[i].id == id
    }

    spec fn index_of(&self, id: u64) -> int {
        choose|i: int| 0 <= i < self.slots@.len() && self.slots@[i].id == id
    }

    /// Handles are distinct and drawn from a counter; every held sample is
    /// well formed.
    pub closed spec fn wf(&self) -> bool {
        &&& forall|i: int|
            0 <= i < self.slots@.len() ==> #[trigger] self.slots@[i].id < self.next_id
        &&& forall|i: int, j: int|
            0 <= i < self.slots@.len() && 0 <= j < self.slots@.len() && i != j
                ==> #[trigger] self.slots@[i].id != #[trigger] self.slots@[j].id
        &&& forall|i: int|
            0 <= i < self.slots@.len() ==> match #[trigger] self.slots@[i].mailbox {
                Some(s) => s.wf(),
                None => true,
            }
    }

    /// How many more subscriptions the handle counter can issue.
    pub closed spec fn handles_left(&self) -> nat {
        (u64::MAX - self.next_id) as nat
    }

    proof fn lemma_slot(&self, i: int)
        requires
            self.wf(),
            0 <= i < self.slots@.len(),
        ensures
            self@.contains_key(self.slots@[i].id),
            self@[self.slots@[i].id] == mailbox_view(self.slots@[i].mailbox),
            self.index_of(self.slots@[i].id) == i,
    {
        let id = self.slots@[i].id;
        assert(self.has_slot(id));
        let j = self.index_of(id);
        assert(self.slots@[j].id == id);
    }

    /// A hub with no subscribers.
    pub fn new() -> (r: Hub)
        ensures
            r.wf(),
            r@ == Map::<u64, Option<SampleView>>::empty(),
            r.handles_left() == u64::MAX,
    {
        let r = Hub { slots: Vec::new(), next_id: 0 };
        assert(r@ =~= Map::<u64, Option<SampleView>>::empty());
        r
    }

    /// The number of live subscriptions.
    pub fn subscriber_count(&self) -> (r: usize)
        requires
            self.wf(),
        ensures
            r == self@.len(),
    {
        proof {
            self.lemma_len();
        }
        self.slots.len()
    }

    /// Registers a new subscriber with an empty mailbox: it receives only
    /// what is published from now on. `None` only when the handle counter is
    /// spent, and then the hub is unchanged.
    pub fn subscribe(&mut self) -> (r: Option<Subscription>)
        requires
            old(self).wf(),
        ensures
            final(self).wf(),
            r is Some <==> old(self).handles_left() > 0,
            r is Some ==> final(self).handles_left() == old(self).handles_left() - 1,
            r matches Some(sub) ==> !old(self)@.contains_key(sub@) && final(self)@ == old(
                self,
            )@.insert(sub@, None),
            r is None ==> final(self)@ == old(self)@ && final(self).handles_left() == 0,
    {
        if self.next_id == u64::MAX {
            return None;
        }
        let id = self.next_id;
        proof {
            if old(self)@.contains_key(id) {
                let i = old(self).index_of(id);
                assert(old(self).slots@[i].id < old(self).next_id);
            }
        }
        self.slots.push(Slot { id, mailbox: None });
        self.next_id = id + 1;
        let ghost pre = *old(self);
        proof {
            assert forall|k: u64| #[trigger] self@.contains_key(k) <==> pre@.insert(id, None).contains_key(k) by {
                if self@.contains_key(k) {
                    let i = self.index_of(k);
                    if i < pre.slots@.len() {
                        assert(pre.slots@[i].id == k);
                    }
                }
                if pre@.contains_key(k) && k != id {
                    let i = pre.index_of(k);
                    assert(self.slots@[i].id == k);
                }
                if k == id {
                    assert(self.slots@[pre.slots@.len() as int].id == k);
                }
            }
            assert forall|k: u64| #[trigger] self@.contains_key(k) implies self@[k] == pre@.insert(id, None)[k] by {
                let i = self.index_of(k);
                self.lemma_slot(i);
                if i < pre.slots@.len() {
                    pre.lemma_slot(i);
                }
            }
            assert(self@ =~= pre@.insert(id, None));
        }
        Some(Subscription { id })
    }

    /// Delivers `sample` to every live subscriber: each mailbox now holds
    /// exactly this sample, replacing any that was not yet taken. With no
    /// subscribers the sample is dropped. Never blocks and never fails.
    pub fn publish(&mut self, sample: &Sample)
        requires
            old(self).wf(),
            sample.wf(),
        ensures
            final(self).wf(),
            final(self)@ == published(old(self)@, sample@),
            final(self).handles_left() == old(self).handles_left(),
    {
        let ghost pre = *old(self);
        let n = self.slots.len();
        let mut i: usize = 0;
        while i < n
            invariant
                0 <= i <= n,
                n == self.slots@.len(),
                n == pre.slots@.len(),
                self.next_id == pre.next_id,
                pre.wf(),
                sample.wf(),
                forall|j: int| 0 <= j < n ==> #[trigger] self.slots@[j].id == pre.slots@[j].id,
                forall|j: int| 0 <= j < i ==> mailbox_view(#[trigger] self.slots@[j].mailbox) == Some(sample@),
                forall|j: int| 0 <= j < i ==> match #[trigger] self.slots@[j].mailbox {
                    Some(s) => s.wf(),
                    None => false,
                },
                forall|j: int| i <= j < n ==> #[trigger] self.slots@[j] == pre.slots@[j],
            decreases n - i,
        {
            let id = self.slots[i].id;
            self.slots.set(i, Slot { id, mailbox: Some(sample.duplicate()) });
            i = i + 1;
        }
        proof {
            assert forall|k: u64| #[trigger] self@.contains_key(k) <==> pre@.contains_key(k) by {
                if self@.contains_key(k) {
                    let j = self.index_of(k);
                    assert(pre.slots@[j].id == k);
                }
                if pre@.contains_key(k) {
                    let j = pre.index_of(k);
                    assert(self.slots@[j].id == k);
                }
            }
            assert forall|k: u64| #[trigger] self@.contains_key(k) implies self@[k] == Some(sample@) by {
                let j = self.index_of(k);
                self.lemma_slot(j);
            }
            assert(self@ =~= published(pre@, sample@));
        }
    }

    fn find(&self, id: u64) -> (r: Option<usize>)
        requires
            self.wf(),
        ensures
            r is Some <==> self@.contains_key(id),
            r matches Some(i) ==> i < self.slots@.len() && self.slots@[i as int].id == id,
    {
        let mut i: usize = 0;
        while i < self.slots.len()
            invariant
                i <= self.slots@.len(),
                forall|j: int| 0 <= j < i ==> #[trigger] self.slots@[j].id != id,
            decreases self.slots@.len() - i,
        {
            if self.slots[i].id == id {
                return Some(i);
            }
            i = i + 1;
        }
        proof {
            if self@.contains_key(id) {
                let j = self.index_of(id);
                assert(self.slots@[j].id == id);
            }
        }
        None
    }

    /// Consumes what the subscriber's mailbox holds, leaving it empty, so
    /// that no sample is seen twice. `None` when the mailbox is empty or the
    /// subscription is no longer live.
    pub fn take(&mut self, sub: &Subscription) -> (r: Option<Sample>)
        requires
            old(self).wf(),
        ensures
            final(self).wf(),
            old(self)@.contains_key(sub@) ==> {
                &&& mailbox_view(r) == old(self)@[sub@]
                &&& final(self)@ == old(self)@.insert(sub@, None)
            },
            !old(self)@.contains_key(sub@) ==> r is None && final(self)@ == old(self)@,
            r matches Some(s) ==> s.wf(),
            final(self).handles_left() == old(self).handles_left(),
    {
        let ghost pre = *old(self);
        match self.find(sub.id) {
            None => None,
            Some(i) => {
                proof {
                    pre.lemma_slot(i as int);
                }
                let mut mailbox: Option<Sample> = None;
                std::mem::swap(&mut self.slots[i].mailbox, &mut mailbox);
                proof {
                    assert(self.slots@ == pre.slots@.update(i as int, Slot { id: sub.id, mailbox: None }));
                    assert forall|k: u64| #[trigger] self@.contains_key(k) <==> pre@.insert(sub.id, None).contains_key(k) by {
                        if self@.contains_key(k) {
                            let j = self.index_of(k);
                            assert(pre.slots@[j].id == k);
                        }
                        if pre@.contains_key(k) {
                            let j = pre.index_of(k);
                            assert(self.slots@[j].id == k);
                        }
                    }
                    assert forall|k: u64| #[trigger] self@.contains_key(k) implies self@[k] == pre@.insert(sub.id, None)[k] by {
                        let j = self.index_of(k);
                        self.lemma_slot(j);
                        pre.lemma_slot(j);
                    }
                    assert(self@ =~= pre@.insert(sub.id, None));
                }
                mailbox
            },
        }
    }

    /// Releases a subscription: its mailbox is discarded and every other
    /// subscriber's mailbox is left as it was.
    pub fn unsubscribe(&mut self, sub: Subscription)
        requires
            old(self).wf(),
        ensures
            final(self).wf(),
            final(self)@ == old(self)@.remove(sub@),
            final(self).handles_left() == old(self).handles_left(),
    {
        let ghost pre = *old(self);
        match self.find(sub.id) {
            None => {
                assert(pre@.remove(sub.id) =~= pre@);
            },
            Some(i) => {
                self.slots.remove(i);
                proof {
                    assert(self.slots@ == pre.slots@.remove(i as int));
                    assert forall|k: u64| #[trigger] self@.contains_key(k) <==> pre@.remove(sub.id).contains_key(k) by {
                        if self@.contains_key(k) {
                            let j = self.index_of(k);
                            if j < i {
                                assert(pre.slots@[j].id == k);
                            } else {
                                assert(pre.slots@[j + 1].id == k);
                            }
                        }
                        if pre@.contains_key(k) && k != sub.id {
                            let j = pre.index_of(k);
                            if j < i {
                                assert(self.slots@[j].id == k);
                            } else {
                                assert(j != i);
                                assert(self.slots@[j - 1].id == k);
                            }
                        }
                    }
                    assert forall|k: u64| #[trigger] self@.contains_key(k) implies self@[k] == pre@.remove(sub.id)[k] by {
                        let j = self.index_of(k);
                        self.lemma_slot(j);
                        if j < i {
                            pre.lemma_slot(j);
                        } else {
                            pre.lemma_slot(j + 1);
                        }
                    }
                    assert(self@ =~= pre@.remove(sub.id));
                }
            },
        }
    }

    proof fn lemma_len(&self)
        requires
            self.wf(),
        ensures
            self@.len() == self.slots@.len(),
            self@.dom().finite(),
    {
        let ids = self.slots@.map_values(|s: Slot| s.id);
        assert(ids.no_duplicates()) by {
            assert forall|i: int, j: int|
                0 <= i < ids.len() && 0 <= j < ids.len() && i != j implies ids[i] != ids[j] by {
                assert(self.slots@[i].id != self.slots@[j].id);
            }
        }
        assert forall|id: u64| self@.dom().contains(id) <==> ids.to_set().contains(id) by {
            if self@.dom().contains(id) {
                let i = self.index_of(id);
                assert(ids[i] == id);
            }
            if ids.to_set().contains(id) {
                let i = choose|i: int| 0 <= i < ids.len() && ids[i] == id;
                assert(self.slots@[i].id == id);
            }
        }
        assert(self@.dom() =~= ids.to_set());
        ids.unique_seq_to_set();
        broadcast use vstd::seq_lib::seq_to_set_is_finite;
    }
}

/// Fan-out: after one publish, every subscriber that was live holds exactly
/// the published sample, whatever the number of subscribers, and the set of
/// subscribers is unchanged.
pub proof fn lemma_fan_out(m: Map<u64, Option<SampleView>>, s: SampleView)
    ensures
        published(m, s).dom() == m.dom(),
        forall|id: u64| m.contains_key(id) ==> #[trigger] published(m, s)[id] == Some(s),
{
    assert(published(m, s).dom() =~= m.dom());
}

/// Latest value wins: a mailbox that still holds an untaken sample `a` holds
/// exactly `b` after `b` is published; no backlog builds up.
pub proof fn lemma_latest_wins(
    m: Map<u64, Option<SampleView>>,
    id: u64,
    a: SampleView,
    b: SampleView,
)
    requires
        m.contains_key(id),
        m[id] == Some(a),
    ensures
        published(m, b)[id] == Some(b),
{
}

/// No replay: a subscription made after `a` was published and before `b`
/// starts with an empty mailbox, and the first sample it can take is `b`.
pub proof fn lemma_no_replay(
    m: Map<u64, Option<SampleView>>,
    id: u64,
    a: SampleView,
    b: SampleView,
)
    requires
        !published(m, a).contains_key(id),
    ensures
        published(m, a).insert(id, None)[id] == None::<SampleView>,
        published(published(m, a).insert(id, None), b)[id] == Some(b),
{
}

/// Isolation: releasing one subscription leaves every other subscriber's
/// mailbox as it was, and later publishes reach the others as before.
pub proof fn lemma_isolation(
    m: Map<u64, Option<SampleView>>,
    gone: u64,
    other: u64,
    s: SampleView,
)
    requires
        m.contains_key(other),
        other != gone,
    ensures
        m.remove(gone).contains_key(other),
        m.remove(gone)[other] == m[other],
        published(m.remove(gone), s)[other] == published(m, s)[other],
        published(m.remove(gone), s)[other] == Some(s),
{
}

} // verus!
