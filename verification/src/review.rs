//! Review events: numbered counters that pages bump to say that what they
//! show is out of date, and the context that holds them.

use vstd::prelude::*;

verus! {

/// The first number of the events of the account pages.
pub const ACC_IDS: u32 = 20000;

/// The first number of the events of the admin pages.
pub const ADMIN_IDS: u32 = 30000;

/// The first number of the events of the namespace pages.
pub const VFS_IDS: u32 = 40000;

/// The review event numbered `ID`: a counter that every invalidation moves
/// on by one.
#[derive(Debug, Clone, Copy, PartialEq, Eq)]
pub struct ReviewEvent<const ID: u32> {
    signal: i32,
}

/// The counter after one more invalidation. It wraps around at the top.
pub open spec fn bumped(count: i32) -> i32 {
    if count == i32::MAX {
        i32::MIN
    } else {
        (count + 1) as i32
    }
}

impl<const ID: u32> ReviewEvent<ID> {
    /// How often the event was invalidated, as a counter that wraps around.
    pub closed spec fn count(&self) -> i32 {
        self.signal
    }

    /// A fresh event, never invalidated.
    pub fn new() -> (event: Self)
        ensures
            event.count() == 0,
    {
        ReviewEvent { signal: 0 }
    }

    /// Says that what depends on this event is out of date.
    pub fn invalidate(&mut self)
        ensures
            final(self).count() == bumped(old(self).count()),
    {
        if self.signal == i32::MAX {
            self.signal = i32::MIN;
        } else {
            self.signal = self.signal + 1;
        }
    }

    /// The present count: whoever saw another one has to look again.
    pub fn subscribe(self) -> (count: i32)
        ensures
            count == self.count(),
    {
        self.signal
    }

    /// Puts a fresh event of this number into the context, in place of the
    /// one that may be there.
    pub fn provide_new(ctx: &mut ReviewContext)
        ensures
            final(ctx)@ == old(ctx)@.insert(ID, 0i32),
    {
        ctx.provide(ID, Self::new().subscribe());
    }

    /// The event of this number that the context holds. The event must
    /// have been provided.
    pub fn use_provided(ctx: &ReviewContext) -> (event: Self)
        requires
            ctx@.dom().contains(ID),
        ensures
            event.count() == ctx@[ID],
    {
        match ctx.lookup(ID) {
            Some(count) => ReviewEvent { signal: count },
            None => ReviewEvent { signal: 0 },
        }
    }
}

impl<const ID: u32> Default for ReviewEvent<ID> {
    fn default() -> (event: Self)
        ensures
            event.count() == 0,
    {
        Self::new()
    }
}

/// One provided event: its number and its count.
#[derive(Debug, Clone, Copy)]
pub struct ProvidedEvent {
    pub id: u32,
    pub count: i32,
}

/// The events that were provided, each number at most once.
#[derive(Debug, Clone)]
pub struct ReviewContext {
    events: Vec<ProvidedEvent>,
}

/// The count of each event among the first `n` of a list; of two events
/// with one number, the earlier counts.
pub open spec fn counts_of(events: Seq<ProvidedEvent>, n: nat) -> Map<u32, i32>
    decreases n,
{
    if n == 0 {
        Map::empty()
    } else {
        let before = counts_of(events, (n - 1) as nat);
        if before.dom().contains(events[n - 1].id) {
            before
        } else {
            before.insert(events[n - 1].id, events[n - 1].count)
        }
    }
}

/// No event before position `n` has the number `id`.
pub proof fn lemma_counts_absent(events: Seq<ProvidedEvent>, n: nat, id: u32)
    requires
        n <= events.len(),
        forall|j: int| 0 <= j < n ==> (#[trigger] events[j]).id != id,
    ensures
        !counts_of(events, n).dom().contains(id),
    decreases n,
{
    if n > 0 {
        lemma_counts_absent(events, (n - 1) as nat, id);
    }
}

/// The first event with the number `id` decides the count of `id`.
pub proof fn lemma_counts_first(events: Seq<ProvidedEvent>, n: nat, at: int)
    requires
        0 <= at < n <= events.len(),
        forall|j: int| 0 <= j < at ==> (#[trigger] events[j]).id != events[at].id,
    ensures
        counts_of(events, n).dom().contains(events[at].id),
        counts_of(events, n)[events[at].id] == events[at].count,
    decreases n,
{
    if n - 1 == at {
        lemma_counts_absent(events, at as nat, events[at].id);
    } else {
        lemma_counts_first(events, (n - 1) as nat, at);
    }
}

/// Changing the count of the first event with a number changes the count
/// of that number and nothing else.
pub proof fn lemma_counts_update(events: Seq<ProvidedEvent>, n: nat, at: int, count: i32)
    requires
        0 <= at < events.len(),
        n <= events.len(),
        forall|j: int| 0 <= j < at ==> (#[trigger] events[j]).id != events[at].id,
    ensures
        counts_of(events.update(at, ProvidedEvent { id: events[at].id, count }), n) == if at < n {
            counts_of(events, n).insert(events[at].id, count)
        } else {
            counts_of(events, n)
        },
    decreases n,
{
    let changed = events.update(at, ProvidedEvent { id: events[at].id, count });
    if n > 0 {
        lemma_counts_update(events, (n - 1) as nat, at, count);
        let before = counts_of(events, (n - 1) as nat);
        if at < n - 1 {
            lemma_counts_first(events, (n - 1) as nat, at);
            assert(changed[n - 1] == events[n - 1]);
            assert(counts_of(changed, n) =~= counts_of(events, n).insert(events[at].id, count));
        } else if at == n - 1 {
            lemma_counts_absent(events, at as nat, events[at].id);
            assert(counts_of(changed, n) =~= counts_of(events, n).insert(events[at].id, count));
        } else {
            assert(changed[n - 1] == events[n - 1]);
        }
    }
}

impl ReviewContext {
    /// The count of each provided event, by its number.
    pub closed spec fn view(&self) -> Map<u32, i32> {
        counts_of(self.events@, self.events@.len())
    }

    /// A context that holds no event.
    pub fn new() -> (ctx: ReviewContext)
        ensures
            ctx@ == Map::<u32, i32>::empty(),
    {
        ReviewContext { events: Vec::new() }
    }

    /// The position of the first event numbered `id`.
    fn position(&self, id: u32) -> (at: Option<usize>)
        ensures
            match at {
                Some(i) => i < self.events@.len() && self.events@[i as int].id == id && forall|
                    j: int,
                | 0 <= j < i ==> (#[trigger] self.events@[j]).id != id,
                None => forall|j: int|
                    0 <= j < self.events@.len() ==> (#[trigger] self.events@[j]).id != id,
            },
    {
        let mut i: usize = 0;
        while i < self.events.len()
            invariant
                i <= self.events.len(),
                forall|j: int| 0 <= j < i ==> (#[trigger] self.events@[j]).id != id,
            decreases self.events.len() - i,
        {
            if self.events[i].id == id {
                return Some(i);
            }
            i += 1;
        }
        None
    }

    /// The count of the event numbered `id`, if it was provided.
    pub fn lookup(&self, id: u32) -> (count: Option<i32>)
        ensures
            count == if self@.dom().contains(id) {
                Some(self@[id])
            } else {
                None
            },
    {
        match self.position(id) {
            Some(i) => {
                proof {
                    lemma_counts_first(self.events@, self.events@.len(), i as int);
                }
                Some(self.events[i].count)
            },
            None => {
                proof {
                    lemma_counts_absent(self.events@, self.events@.len(), id);
                }
                None
            },
        }
    }

    /// Provides the event numbered `id` with the given count, in place of
    /// the one that may be there.
    pub fn provide(&mut self, id: u32, count: i32)
        ensures
            final(self)@ == old(self)@.insert(id, count),
    {
        match self.position(id) {
            Some(i) => {
                proof {
                    lemma_counts_update(self.events@, self.events@.len(), i as int, count);
                }
                self.events.set(i, ProvidedEvent { id, count });
            },
            None => {
                proof {
                    lemma_counts_absent(self.events@, self.events@.len(), id);
                }
                let ghost before = self.events@;
                self.events.push(ProvidedEvent { id, count });
                proof {
                    lemma_counts_prefix(before, self.events@, before.len());
                }
            },
        }
    }

    /// Moves the event numbered `id` on by one, if it was provided.
    pub fn invalidate(&mut self, id: u32)
        ensures
            final(self)@ == if old(self)@.dom().contains(id) {
                old(self)@.insert(id, bumped(old(self)@[id]))
            } else {
                old(self)@
            },
    {
        match self.lookup(id) {
            Some(count) => {
                let next = if count == i32::MAX {
                    i32::MIN
                } else {
                    count + 1
                };
                self.provide(id, next);
            },
            None => {},
        }
    }
}

/// Two lists that agree on their first `n` events give those the same
/// counts.
pub proof fn lemma_counts_prefix(a: Seq<ProvidedEvent>, b: Seq<ProvidedEvent>, n: nat)
    requires
        n <= a.len(),
        n <= b.len(),
        forall|j: int| 0 <= j < n ==> a[j] == b[j],
    ensures
        counts_of(a, n) == counts_of(b, n),
    decreases n,
{
    if n > 0 {
        lemma_counts_prefix(a, b, (n - 1) as nat);
    }
}

} // verus!
