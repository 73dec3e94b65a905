//! Per-project, bounded, in-memory secret cache.
//!
//! An entry lives for its time to live and is dropped when it is next looked up after
//! that. An insert that would go over the bound drops the entry that was fetched longest
//! ago; inserting a name that is held already replaces its entry and drops no other.

use crate::clock::{Moment, Span, NANOS_PER_SECOND};
use crate::secret::{self, Secret};
use crate::text::same_text;
use vstd::prelude::*;

verus! {

/// What the cache holds under a name.
pub struct CacheSlot {
    pub value: Seq<char>,
    pub fetched_at: Moment,
    pub ttl: Span,
}

impl CacheSlot {
    /// Whether the slot's time to live is over.
    pub open spec fn expired(self, now: Moment) -> bool {
        now.since(self.fetched_at).nanos >= self.ttl.nanos
    }

    /// The whole seconds that the slot has left, as the 32-bit number that goes out.
    pub open spec fn seconds_left(self, now: Moment) -> u32
        recommends
            !self.expired(now),
    {
        (((self.ttl.nanos - now.since(self.fetched_at).nanos) as u128) / NANOS_PER_SECOND) as u32
    }
}

/// The contents of a cache, by name.
pub type CacheContents = Map<Seq<char>, CacheSlot>;

/// What a lookup finds: the value and the seconds it has left.
pub open spec fn lookup(contents: CacheContents, name: Seq<char>, now: Moment) -> Option<
    (Seq<char>, u32),
> {
    if contents.contains_key(name) && !contents[name].expired(now) {
        Some((contents[name].value, contents[name].seconds_left(now)))
    } else {
        None
    }
}

/// What a lookup leaves behind: it drops an entry that it finds expired.
pub open spec fn after_lookup(
    contents: CacheContents,
    name: Seq<char>,
    now: Moment,
) -> CacheContents {
    if contents.contains_key(name) && contents[name].expired(now) {
        contents.remove(name)
    } else {
        contents
    }
}

/// Whether no entry was fetched before that of `name`.
pub open spec fn is_oldest(contents: CacheContents, name: Seq<char>) -> bool {
    &&& contents.contains_key(name)
    &&& forall|other: Seq<char>| #[trigger]
        contents.contains_key(other) ==> contents[name].fetched_at.nanos
            <= contents[other].fetched_at.nanos
}

/// Whether inserting `slot` under `name` takes `before` to `after`. Of several entries that
/// were all fetched longest ago, any one may be the one to go.
pub open spec fn inserted(
    before: CacheContents,
    after: CacheContents,
    name: Seq<char>,
    slot: CacheSlot,
    max_entries: nat,
) -> bool {
    if before.contains_key(name) || before.len() < max_entries || before.len() == 0 {
        after == before.insert(name, slot)
    } else {
        exists|gone: Seq<char>| #[trigger]
            is_oldest(before, gone) && after == before.remove(gone).insert(name, slot)
    }
}

#[derive(Debug)]
struct CacheEntry {
    name: String,
    value: Secret,
    fetched_at: Moment,
    ttl: Span,
}

impl CacheEntry {
    closed spec fn slot(self) -> CacheSlot {
        CacheSlot {
            value: secret::secret_text(self.value),
            fetched_at: self.fetched_at,
            ttl: self.ttl,
        }
    }

    fn is_expired(&self, now: Moment) -> (r: bool)
        ensures
            r == self.slot().expired(now),
    {
        now.duration_since(self.fetched_at).nanos >= self.ttl.nanos
    }

    /// What is left of the time to live, or no time at all where it is over.
    fn remaining_ttl(&self, now: Moment) -> (r: Span)
        ensures
            r.nanos == if self.slot().expired(now) {
                0
            } else {
                self.slot().ttl.nanos - now.since(self.slot().fetched_at).nanos
            },
    {
        let age = now.duration_since(self.fetched_at);
        if age.nanos >= self.ttl.nanos {
            Span { nanos: 0 }
        } else {
            Span { nanos: self.ttl.nanos - age.nanos }
        }
    }
}

spec fn names(entries: Seq<CacheEntry>) -> Seq<Seq<char>> {
    Seq::new(entries.len(), |i: int| entries[i].name@)
}

spec fn slots(entries: Seq<CacheEntry>) -> CacheContents {
    Map::new(
        |name: Seq<char>| names(entries).contains(name),
        |name: Seq<char>| entries[names(entries).index_of(name)].slot(),
    )
}

spec fn distinct(entries: Seq<CacheEntry>) -> bool {
    forall|i: int, j: int|
        0 <= i < j < entries.len() ==> (#[trigger] entries[i]).name@ != (#[trigger] entries[j]).name@
}

proof fn lemma_slot_at(entries: Seq<CacheEntry>, i: int)
    requires
        distinct(entries),
        0 <= i < entries.len(),
    ensures
        slots(entries).contains_key(entries[i].name@),
        slots(entries)[entries[i].name@] == entries[i].slot(),
{
    let name = entries[i].name@;
    assert(names(entries)[i] == name);
    assert(names(entries).contains(name));
    let j = names(entries).index_of(name);
    assert(names(entries)[j] == name);
    assert(entries[j].name@ == entries[i].name@);
    if j < i {
        assert(entries[j].name@ != entries[i].name@);
    } else if i < j {
        assert(entries[i].name@ != entries[j].name@);
    }
}

proof fn lemma_slots_len(entries: Seq<CacheEntry>)
    requires
        distinct(entries),
    ensures
        slots(entries).len() == entries.len(),
        slots(entries).dom().finite(),
{
    let ns = names(entries);
    assert(ns.no_duplicates()) by {
        assert forall|i: int, j: int| 0 <= i < ns.len() && 0 <= j < ns.len() && i != j implies ns[i]
            != ns[j] by {
            if i < j {
                assert(entries[i].name@ != entries[j].name@);
            } else {
                assert(entries[j].name@ != entries[i].name@);
            }
        }
    }
    ns.unique_seq_to_set();
    assert(slots(entries).dom() =~= ns.to_set());
}

proof fn lemma_absent(entries: Seq<CacheEntry>, name: Seq<char>)
    requires
        forall|i: int| 0 <= i < entries.len() ==> (#[trigger] entries[i]).name@ != name,
    ensures
        !slots(entries).contains_key(name),
{
    assert forall|i: int| 0 <= i < entries.len() implies names(entries)[i] != name by {
        assert(entries[i].name@ != name);
    }
}

proof fn lemma_key_at(entries: Seq<CacheEntry>, name: Seq<char>) -> (i: int)
    requires
        slots(entries).contains_key(name),
    ensures
        0 <= i < entries.len(),
        entries[i].name@ == name,
{
    let i = names(entries).index_of(name);
    assert(names(entries)[i] == name);
    i
}

proof fn lemma_removed(entries: Seq<CacheEntry>, i: int)
    requires
        distinct(entries),
        0 <= i < entries.len(),
    ensures
        distinct(entries.remove(i)),
        slots(entries.remove(i)) == slots(entries).remove(entries[i].name@),
{
    let rest = entries.remove(i);
    let gone = entries[i].name@;
    assert forall|a: int, b: int| 0 <= a < b < rest.len() implies (#[trigger] rest[a]).name@ != (
    #[trigger] rest[b]).name@ by {
        let x = if a < i {
            a
        } else {
            a + 1
        };
        let y = if b < i {
            b
        } else {
            b + 1
        };
        assert(rest[a] == entries[x] && rest[b] == entries[y]);
        assert(entries[x].name@ != entries[y].name@);
    }
    let left = slots(rest);
    let right = slots(entries).remove(gone);
    assert forall|name: Seq<char>|
        #![trigger left.dom().contains(name)]
        #![trigger right.dom().contains(name)]
        left.dom().contains(name) == right.dom().contains(name) && (left.dom().contains(name)
            ==> left[name] == right[name]) by {
        if left.contains_key(name) {
            let a = lemma_key_at(rest, name);
            let x = if a < i {
                a
            } else {
                a + 1
            };
            assert(rest[a] == entries[x]);
            lemma_slot_at(rest, a);
            lemma_slot_at(entries, x);
            if x < i {
                assert(entries[x].name@ != entries[i].name@);
            } else {
                assert(entries[i].name@ != entries[x].name@);
            }
        }
        if right.contains_key(name) {
            let x = lemma_key_at(entries, name);
            let a = if x < i {
                x
            } else {
                x - 1
            };
            assert(rest[a] == entries[x]);
            lemma_slot_at(rest, a);
        }
    }
    assert(left.dom() =~= right.dom());
    assert(left =~= right);
}

proof fn lemma_pushed(entries: Seq<CacheEntry>, entry: CacheEntry)
    requires
        distinct(entries),
        !slots(entries).contains_key(entry.name@),
    ensures
        distinct(entries.push(entry)),
        slots(entries.push(entry)) == slots(entries).insert(entry.name@, entry.slot()),
{
    let longer = entries.push(entry);
    assert forall|a: int, b: int| 0 <= a < b < longer.len() implies (#[trigger] longer[a]).name@
        != (#[trigger] longer[b]).name@ by {
        if b < entries.len() {
            assert(entries[a].name@ != entries[b].name@);
        } else {
            lemma_slot_at(entries, a);
        }
    }
    let left = slots(longer);
    let right = slots(entries).insert(entry.name@, entry.slot());
    assert(longer[entries.len() as int] == entry);
    lemma_slot_at(longer, entries.len() as int);
    assert forall|name: Seq<char>|
        #![trigger left.dom().contains(name)]
        #![trigger right.dom().contains(name)]
        left.dom().contains(name) == right.dom().contains(name) && (left.dom().contains(name)
            ==> left[name] == right[name]) by {
        if left.contains_key(name) {
            let a = lemma_key_at(longer, name);
            lemma_slot_at(longer, a);
            if a < entries.len() {
                lemma_slot_at(entries, a);
                assert(longer[a] == entries[a]);
            }
        }
        if slots(entries).contains_key(name) {
            let a = lemma_key_at(entries, name);
            assert(longer[a] == entries[a]);
            lemma_slot_at(longer, a);
        }
    }
    assert(left.dom() =~= right.dom());
    assert(left =~= right);
}

/// Per-project secret cache.
#[derive(Debug)]
pub struct BoundedCache {
    entries: Vec<CacheEntry>,
    max_entries: usize,
    default_ttl: Span,
}

/// A value that was found in the cache, and how long it will stay there.
#[derive(Debug)]
pub struct CacheHit {
    pub value: Secret,
    pub ttl_seconds: u32,
}

impl View for BoundedCache {
    type V = CacheContents;

    closed spec fn view(&self) -> CacheContents {
        slots(self.entries@)
    }
}

impl BoundedCache {
    /// Whether the cache holds each name once.
    pub closed spec fn wf(&self) -> bool {
        distinct(self.entries@)
    }

    /// How many entries an insert leaves at most.
    pub closed spec fn bound(&self) -> nat {
        self.max_entries as nat
    }

    /// How long an entry lives for which nothing else is said.
    pub closed spec fn lifetime(&self) -> Span {
        self.default_ttl
    }

    /// An empty cache.
    pub fn new(max_entries: usize, default_ttl: Span) -> (r: BoundedCache)
        ensures
            r.wf(),
            r@ == CacheContents::empty(),
            r.bound() == max_entries,
            r.lifetime() == default_ttl,
    {
        let r = BoundedCache { entries: Vec::new(), max_entries, default_ttl };
        assert(r@ =~= CacheContents::empty()) by {
            lemma_slots_len(r.entries@);
            assert forall|name: Seq<char>| !slots(r.entries@).contains_key(name) by {
                lemma_absent(r.entries@, name);
            }
        }
        r
    }

    fn find(&self, name: &str) -> (r: Option<usize>)
        requires
            self.wf(),
        ensures
            match r {
                Some(i) => i < self.entries@.len() && self.entries@[i as int].name@ == name@
                    && self@.contains_key(name@) && self@[name@] == self.entries@[i as int].slot(),
                None => !self@.contains_key(name@),
            },
    {
        let mut i: usize = 0;
        while i < self.entries.len()
            invariant
                self.wf(),
                i <= self.entries@.len(),
                forall|j: int| 0 <= j < i ==> (#[trigger] self.entries@[j]).name@ != name@,
            decreases self.entries@.len() - i,
        {
            if same_text(self.entries[i].name.as_str(), name) {
                proof {
                    lemma_slot_at(self.entries@, i as int);
                }
                return Some(i);
            }
            i = i + 1;
        }
        proof {
            lemma_absent(self.entries@, name@);
        }
        None
    }

    /// Looks up `name`. An entry that is past its time to live is a miss, and is dropped.
    pub fn get(&mut self, name: &str, now: Moment) -> (r: Option<CacheHit>)
        requires
            old(self).wf(),
        ensures
            final(self).wf(),
            final(self).bound() == old(self).bound(),
            final(self).lifetime() == old(self).lifetime(),
            final(self)@ == after_lookup(old(self)@, name@, now),
            lookup(old(self)@, name@, now) == match r {
                Some(hit) => Some((secret::secret_text(hit.value), hit.ttl_seconds)),
                None => None,
            },
    {
        let i: usize = match self.find(name) {
            None => return None,
            Some(i) => i,
        };
        if self.entries[i].is_expired(now) {
            proof {
                lemma_removed(self.entries@, i as int);
            }
            let _gone = self.entries.remove(i);
            return None;
        }
        let left: u128 = self.entries[i].remaining_ttl(now).as_secs();
        let ttl_seconds: u32 = #[verifier::truncate]
        (left as u32);
        Some(CacheHit { value: self.entries[i].value.duplicate(), ttl_seconds })
    }

    /// Holds `value` under `name`. Without a `ttl` of its own the entry lives for the
    /// cache's default. Where the cache is full, the entry fetched longest ago goes.
    pub fn insert(&mut self, name: String, value: Secret, ttl: Option<Span>, now: Moment)
        requires
            old(self).wf(),
        ensures
            final(self).wf(),
            final(self).bound() == old(self).bound(),
            final(self).lifetime() == old(self).lifetime(),
            inserted(
                old(self)@,
                final(self)@,
                name@,
                (CacheSlot {
                    value: secret::secret_text(value),
                    fetched_at: now,
                    ttl: match ttl {
                        Some(span) => span,
                        None => old(self).lifetime(),
                    },
                }),
                old(self).bound(),
            ),
    {
        let ttl = match ttl {
            Some(span) => span,
            None => self.default_ttl,
        };
        let ghost before = self@;
        proof {
            lemma_slots_len(self.entries@);
        }
        match self.find(name.as_str()) {
            Some(i) => {
                proof {
                    lemma_removed(self.entries@, i as int);
                }
                let _replaced = self.entries.remove(i);
            },
            None => {
                if self.entries.len() >= self.max_entries && self.entries.len() > 0 {
                    self.evict_oldest();
                }
            },
        }
        let entry = CacheEntry { name, value, fetched_at: now, ttl };
        proof {
            lemma_pushed(self.entries@, entry);
        }
        let ghost between = self@;
        self.entries.push(entry);
        proof {
            if before.contains_key(name@) {
                assert(between.insert(name@, entry.slot()) =~= before.insert(
                    name@,
                    entry.slot(),
                ));
            }
        }
    }

    /// Drops the entry that was fetched longest ago.
    fn evict_oldest(&mut self)
        requires
            old(self).wf(),
            old(self).entries@.len() > 0,
        ensures
            final(self).wf(),
            final(self).bound() == old(self).bound(),
            final(self).lifetime() == old(self).lifetime(),
            exists|gone: Seq<char>| #[trigger]
                is_oldest(old(self)@, gone) && final(self)@ == old(self)@.remove(gone),
    {
        let mut oldest: usize = 0;
        let mut i: usize = 1;
        while i < self.entries.len()
            invariant
                0 < i <= self.entries@.len(),
                oldest < self.entries@.len(),
                forall|j: int|
                    0 <= j < i ==> self.entries@[oldest as int].fetched_at.nanos <= (
                    #[trigger] self.entries@[j]).fetched_at.nanos,
            decreases self.entries@.len() - i,
        {
            if self.entries[i].fetched_at.nanos < self.entries[oldest].fetched_at.nanos {
                oldest = i;
            }
            i = i + 1;
        }
        proof {
            let gone = self.entries@[oldest as int].name@;
            lemma_slot_at(self.entries@, oldest as int);
            assert forall|other: Seq<char>| #[trigger] self@.contains_key(other) implies self@[gone]
                .fetched_at.nanos <= self@[other].fetched_at.nanos by {
                let j = lemma_key_at(self.entries@, other);
                lemma_slot_at(self.entries@, j);
            }
            assert(is_oldest(self@, gone));
            lemma_removed(self.entries@, oldest as int);
        }
        let _gone = self.entries.remove(oldest);
    }

    /// Drops every entry.
    pub fn clear(&mut self)
        ensures
            final(self).wf(),
            final(self)@ == CacheContents::empty(),
            final(self).bound() == old(self).bound(),
            final(self).lifetime() == old(self).lifetime(),
    {
        self.entries = Vec::new();
        assert(self@ =~= CacheContents::empty()) by {
            assert forall|name: Seq<char>| !slots(self.entries@).contains_key(name) by {
                lemma_absent(self.entries@, name);
            }
        }
    }

    /// The number of entries, expired ones that nobody has looked up among them.
    pub fn len(&self) -> (r: usize)
        requires
            self.wf(),
        ensures
            r == self@.len(),
    {
        proof {
            lemma_slots_len(self.entries@);
        }
        self.entries.len()
    }

    /// Tells whether the cache holds no entry.
    pub fn is_empty(&self) -> (r: bool)
        requires
            self.wf(),
        ensures
            r == (self@ == CacheContents::empty()),
    {
        proof {
            lemma_slots_len(self.entries@);
            if self@.len() == 0 {
                assert(self@ =~= CacheContents::empty());
            }
        }
        self.entries.len() == 0
    }

    /// How long an entry lives for which nothing else is said.
    pub fn default_ttl(&self) -> (r: Span)
        ensures
            r == self.lifetime(),
    {
        self.default_ttl
    }

    /// Sets new bounds. They count for inserts from now on: no entry is dropped to meet a
    /// smaller bound, and none gets another time to live.
    pub fn set_config(&mut self, max_entries: usize, default_ttl: Span)
        requires
            old(self).wf(),
        ensures
            final(self).wf(),
            final(self)@ == old(self)@,
            final(self).bound() == max_entries,
            final(self).lifetime() == default_ttl,
    {
        self.max_entries = max_entries;
        self.default_ttl = default_ttl;
    }
}

/// What a cache holds is finite.
pub proof fn contents_are_finite(cache: BoundedCache)
    requires
        cache.wf(),
    ensures
        cache@.dom().finite(),
{
    lemma_slots_len(cache.entries@);
}

/// A lookup within the time to live gives back what the insert wrote.
pub proof fn lookups_give_back_inserts(
    before: CacheContents,
    after: CacheContents,
    name: Seq<char>,
    slot: CacheSlot,
    max_entries: nat,
    now: Moment,
)
    requires
        inserted(before, after, name, slot, max_entries),
        !slot.expired(now),
    ensures
        lookup(after, name, now) == Some((slot.value, slot.seconds_left(now))),
{
}

/// A value is served only while its time to live lasts; once it is over, the lookup that
/// notices drops the entry.
pub proof fn expired_values_are_never_served(contents: CacheContents, name: Seq<char>, now: Moment)
    ensures
        lookup(contents, name, now) is Some ==> contents.contains_key(name) && now.since(
            contents[name].fetched_at,
        ).nanos < contents[name].ttl.nanos,
        contents.contains_key(name) && now.since(contents[name].fetched_at).nanos
            >= contents[name].ttl.nanos ==> lookup(contents, name, now) is None && !after_lookup(
            contents,
            name,
            now,
        ).contains_key(name),
{
}

/// Once a value has expired it stays expired.
pub proof fn expiry_is_final(slot: CacheSlot, now: Moment, later: Moment)
    requires
        slot.expired(now),
        now.nanos <= later.nanos,
    ensures
        slot.expired(later),
{
}

/// The seconds that go out with a value never exceed what is left of its time to live.
pub proof fn seconds_left_are_left(slot: CacheSlot, now: Moment)
    requires
        !slot.expired(now),
        slot.ttl.nanos <= u32::MAX * NANOS_PER_SECOND,
    ensures
        slot.seconds_left(now) * NANOS_PER_SECOND + now.since(slot.fetched_at).nanos
            <= slot.ttl.nanos,
{
}

/// A lookup changes what other lookups find only of its own name.
pub proof fn lookups_leave_other_names(
    contents: CacheContents,
    name: Seq<char>,
    other: Seq<char>,
    now: Moment,
    later: Moment,
)
    requires
        other != name,
    ensures
        lookup(after_lookup(contents, name, now), other, later) == lookup(contents, other, later),
{
}

/// An insert leaves every other entry as it was, but for one that it may drop: only where
/// the name is new and the cache is full, and then one that was fetched longest ago.
pub proof fn inserts_drop_the_oldest_at_most(
    before: CacheContents,
    after: CacheContents,
    name: Seq<char>,
    slot: CacheSlot,
    max_entries: nat,
)
    requires
        before.dom().finite(),
        inserted(before, after, name, slot, max_entries),
    ensures
        forall|other: Seq<char>|
            other != name && #[trigger] after.contains_key(other) ==> before.contains_key(other)
                && after[other] == before[other],
        forall|other: Seq<char>|
            other != name && #[trigger] before.contains_key(other) && !after.contains_key(other)
                ==> is_oldest(before, other) && !before.contains_key(name) && before.len()
                >= max_entries,
        forall|a: Seq<char>, b: Seq<char>|
            #![trigger before.contains_key(a), before.contains_key(b)]
            before.contains_key(a) && !after.contains_key(a) && before.contains_key(b)
                && !after.contains_key(b) ==> a == b,
{
}

/// An insert never takes the cache over its bound: the number of entries stays at the
/// larger of what it was and the bound, a bound of none counting as one.
pub proof fn inserts_keep_the_bound(
    before: CacheContents,
    after: CacheContents,
    name: Seq<char>,
    slot: CacheSlot,
    max_entries: nat,
)
    requires
        before.dom().finite(),
        inserted(before, after, name, slot, max_entries),
    ensures
        after.dom().finite(),
        after.len() <= before.len() || after.len() <= max_entries || after.len() <= 1,
{
    if !(before.contains_key(name) || before.len() < max_entries || before.len() == 0) {
        let gone = choose|gone: Seq<char>| #[trigger]
            is_oldest(before, gone) && after == before.remove(gone).insert(name, slot);
        assert(before.remove(gone).len() == before.len() - 1);
    }
}

/// How long before `now` a slot was fetched, in nanoseconds; a clock that reads less than it
/// did then counts as none.
spec fn age(slot: CacheSlot, now: Moment) -> int {
    if slot.fetched_at.nanos <= now.nanos {
        now.nanos - slot.fetched_at.nanos
    } else {
        0
    }
}

/// A lookup finds exactly what the cache holds under the name and has held for less than its
/// time to live: the whole value, and the whole seconds until it has been held so long.
pub proof fn lookups_find_what_is_alive(contents: CacheContents, name: Seq<char>, now: Moment)
    ensures
        ({
            let slot = contents[name];
            let held = if slot.fetched_at.nanos <= now.nanos {
                now.nanos - slot.fetched_at.nanos
            } else {
                0
            };
            let left = slot.ttl.nanos - held;
            match lookup(contents, name, now) {
                Some((value, seconds)) => {
                    &&& contents.contains_key(name) && left > 0
                    &&& value == slot.value
                    &&& seconds == (left / 1_000_000_000) % 4_294_967_296
                    &&& left < 4_294_967_296_000_000_000 ==> seconds * 1_000_000_000 <= left < (
                    seconds + 1) * 1_000_000_000
                },
                None => !(contents.contains_key(name) && left > 0),
            }
        }),
{
    let slot = contents[name];
    let left = slot.ttl.nanos - age(slot, now);
    if contents.contains_key(name) && left > 0 {
        crate::clock::counts_are_cut_to_their_width((left / 1_000_000_000) as u128);
    }
}

/// A lookup leaves every entry as it was, but for one that it finds past its time to live,
/// which is gone.
pub proof fn lookups_drop_only_what_is_over(
    contents: CacheContents,
    name: Seq<char>,
    other: Seq<char>,
    now: Moment,
)
    ensures
        ({
            let left = after_lookup(contents, name, now);
            let slot = contents[name];
            let over = now.nanos >= slot.fetched_at.nanos + slot.ttl.nanos || slot.ttl.nanos == 0;
            &&& left.contains_key(other) <==> contents.contains_key(other) && !(other == name
                && over)
            &&& left.contains_key(other) ==> left[other] == contents[other]
        }),
{
}

/// After an insert the cache holds what was inserted, as it was inserted, and of what it held
/// before everything as it was, but for at most one entry: that is one of those fetched first,
/// and it goes only where the name is new and the cache was full.
pub proof fn inserts_keep_all_but_the_oldest(
    before: CacheContents,
    after: CacheContents,
    name: Seq<char>,
    slot: CacheSlot,
    max_entries: nat,
)
    requires
        before.dom().finite(),
        inserted(before, after, name, slot, max_entries),
    ensures
        after.contains_key(name),
        after[name].value == slot.value,
        after[name].fetched_at.nanos == slot.fetched_at.nanos,
        after[name].ttl.nanos == slot.ttl.nanos,
        forall|other: Seq<char>|
            other != name && #[trigger] after.contains_key(other) ==> before.contains_key(other)
                && after[other] == before[other],
        before.contains_key(name) || before.len() < max_entries ==> forall|other: Seq<char>|
            #[trigger] before.contains_key(other) ==> after.contains_key(other),
        !before.contains_key(name) && before.len() >= max_entries && before.len() > 0
            ==> after.len() == before.len(),
        forall|gone: Seq<char>, other: Seq<char>|
            #![trigger before.contains_key(gone), before.contains_key(other)]
            before.contains_key(gone) && !after.contains_key(gone) && before.contains_key(other)
                ==> before[gone].fetched_at.nanos <= before[other].fetched_at.nanos,
        forall|gone: Seq<char>, other: Seq<char>|
            #![trigger before.contains_key(gone), before.contains_key(other)]
            before.contains_key(gone) && !after.contains_key(gone) && before.contains_key(other)
                && !after.contains_key(other) ==> gone == other,
{
    if !(before.contains_key(name) || before.len() < max_entries || before.len() == 0) {
        let gone = choose|gone: Seq<char>| #[trigger]
            is_oldest(before, gone) && after == before.remove(gone).insert(name, slot);
        assert(before.remove(gone).len() == before.len() - 1);
        assert(!before.remove(gone).contains_key(name));
    }
}

} // verus!
