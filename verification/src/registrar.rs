//! An arena of tracked objects with recyclable slots.
//!
//! A [`Registrar`] owns every object it tracks. [`Registrar::track_object`]
//! hands out a [`Registration`]: a ticket that names a slot and carries the
//! serial number under which the slot was filled. A ticket owns nothing; it is
//! resolved through the registrar, and resolves to nothing once its object has
//! been freed, also after the slot has been handed to a later object.

use std::collections::VecDeque;
use std::marker::PhantomData;
use vstd::prelude::*;

verus! {

/// What a [`Registration`] stands for: a slot and the serial number of the
/// object that the slot held when the registration was issued.
pub struct Ticket {
    pub index: nat,
    pub stamp: nat,
}

/// The mathematical content of a [`Registrar`].
pub struct Registry<T> {
    /// The slots; a filled slot holds its object and that object's serial number.
    pub slots: Seq<Option<(nat, T)>>,
    /// The vacant slots, oldest vacancy first.
    pub free: Seq<nat>,
    /// How many registrations have been issued so far.
    pub issued: nat,
}

impl<T> Registry<T> {
    /// The registry that tracks nothing and has issued nothing.
    pub open spec fn empty() -> Self {
        Registry { slots: Seq::empty(), free: Seq::empty(), issued: 0 }
    }

    /// The vacancy queue lists exactly the empty slots, each once, and every
    /// serial number in a slot has already been issued.
    pub open spec fn wf(self) -> bool {
        &&& forall|k: int|
            0 <= k < self.free.len() ==> (#[trigger] self.free[k]) < self.slots.len()
                && self.slots[self.free[k] as int] is None
        &&& forall|j: int, k: int|
            0 <= j < k < self.free.len() ==> self.free[j] != self.free[k]
        &&& forall|s: int|
            0 <= s < self.slots.len() && (#[trigger] self.slots[s]) is None
                ==> self.free.contains(s as nat)
        &&& forall|s: int|
            0 <= s < self.slots.len() ==> ((#[trigger] self.slots[s]) matches Some(held)
                ==> held.0 < self.issued)
    }

    /// The object that `t` stands for, if it is still tracked.
    pub open spec fn resolve(self, t: Ticket) -> Option<T> {
        if t.index < self.slots.len() {
            match self.slots[t.index as int] {
                Some(held) => if held.0 == t.stamp {
                    Some(held.1)
                } else {
                    None
                },
                None => None,
            }
        } else {
            None
        }
    }

    /// `t` resolves to an object.
    pub open spec fn is_live(self, t: Ticket) -> bool {
        self.resolve(t) is Some
    }

    /// `t` carries a serial number that this registry has handed out.
    pub open spec fn has_issued(self, t: Ticket) -> bool {
        t.stamp < self.issued
    }

    /// The slot that the next tracked object goes to: the oldest vacancy, or
    /// a new slot at the end when there is none.
    pub open spec fn next_index(self) -> nat {
        if self.free.len() > 0 {
            self.free[0]
        } else {
            self.slots.len()
        }
    }

    /// The ticket that the next tracked object gets.
    pub open spec fn next_ticket(self) -> Ticket {
        Ticket { index: self.next_index(), stamp: self.issued }
    }

    /// The registry after tracking `object`.
    pub open spec fn track(self, object: T) -> Self {
        if self.free.len() > 0 {
            Registry {
                slots: self.slots.update(self.free[0] as int, Some((self.issued, object))),
                free: self.free.subrange(1, self.free.len() as int),
                issued: self.issued + 1,
            }
        } else {
            Registry {
                slots: self.slots.push(Some((self.issued, object))),
                free: self.free,
                issued: self.issued + 1,
            }
        }
    }

    /// The registry after freeing the object that `t` stands for.
    pub open spec fn release(self, t: Ticket) -> Self {
        Registry {
            slots: self.slots.update(t.index as int, None),
            free: self.free.push(t.index),
            issued: self.issued,
        }
    }
}

/// A non-owning ticket for an object tracked by a [`Registrar`].
pub struct Registration<T> {
    index: usize,
    stamp: u64,
    marker: PhantomData<T>,
}

impl<T> View for Registration<T> {
    type V = Ticket;

    closed spec fn view(&self) -> Ticket {
        Ticket { index: self.index as nat, stamp: self.stamp as nat }
    }
}

/// An arena of tracked objects. Slots that have been freed are reused, oldest
/// vacancy first, before the arena grows.
pub struct Registrar<T> {
    objects: Vec<Option<T>>,
    stamps: Vec<u64>,
    free_list: VecDeque<usize>,
    issued: u64,
}

impl<T> View for Registrar<T> {
    type V = Registry<T>;

    closed spec fn view(&self) -> Registry<T> {
        Registry {
            slots: Seq::new(
                self.objects@.len(),
                |s: int|
                    match self.objects@[s] {
                        Some(object) => Some((self.stamps@[s] as nat, object)),
                        None => None,
                    },
            ),
            free: Seq::new(self.free_list@.len(), |k: int| self.free_list@[k] as nat),
            issued: self.issued as nat,
        }
    }
}

impl<T> Registrar<T> {
    /// Every slot has its serial number on record.
    pub closed spec fn coherent(&self) -> bool {
        self.stamps@.len() == self.objects@.len()
    }

    /// The representation is coherent and its content is a well-formed registry.
    pub open spec fn wf(&self) -> bool {
        &&& self.coherent()
        &&& self@.wf()
    }

    /// An empty registrar.
    pub fn new() -> (registrar: Self)
        ensures
            registrar.wf(),
            registrar@ == Registry::<T>::empty(),
    {
        let registrar = Registrar {
            objects: Vec::new(),
            stamps: Vec::new(),
            free_list: VecDeque::new(),
            issued: 0,
        };
        assert(registrar@.slots =~= Seq::empty());
        assert(registrar@.free =~= Seq::empty());
        registrar
    }

    /// Whether one more object can be tracked: the serial numbers are not used up.
    pub fn has_room(&self) -> (room: bool)
        ensures
            room == (self@.issued < u64::MAX),
    {
        self.issued < u64::MAX
    }

    /// Takes ownership of `object`, stores it in the oldest vacant slot, or
    /// in a new slot when none is vacant, and returns the ticket for it.
    pub fn track_object(&mut self, object: T) -> (registration: Registration<T>)
        requires
            old(self).wf(),
            old(self)@.issued < u64::MAX,
        ensures
            final(self).wf(),
            final(self)@ == old(self)@.track(object),
            registration@ == old(self)@.next_ticket(),
    {
        let stamp = self.issued;
        let ghost before = self@;
        let index = match self.free_list.pop_front() {
            Some(index) => {
                assert(index as nat == before.free[0]);
                self.objects.set(index, Some(object));
                self.stamps.set(index, stamp);
                index
            },
            None => {
                let index = self.objects.len();
                self.objects.push(Some(object));
                self.stamps.push(stamp);
                index
            },
        };
        self.issued = stamp + 1;
        proof {
            let after = self@;
            let expected = before.track(object);
            assert(after.slots =~= expected.slots);
            assert(after.free =~= expected.free);
            lemma_track_keeps_wf(before, object);
        }
        Registration { index, stamp, marker: PhantomData }
    }

    /// Whether `registration` still stands for an object tracked here.
    pub fn is_live(&self, registration: &Registration<T>) -> (live: bool)
        requires
            self.wf(),
        ensures
            live == self@.is_live(registration@),
    {
        let index = registration.index;
        if index < self.objects.len() {
            self.objects[index].is_some() && self.stamps[index] == registration.stamp
        } else {
            false
        }
    }

    /// Drops the object that `registration` stands for, clears its slot and
    /// queues the slot for reuse. The registration must be live: one that was
    /// freed before, or that came from another registrar, is refused.
    pub fn free_object(&mut self, registration: Registration<T>)
        requires
            old(self).wf(),
            old(self)@.is_live(registration@),
        ensures
            final(self).wf(),
            final(self)@ == old(self)@.release(registration@),
    {
        let index = registration.index;
        let ghost before = self@;
        self.objects.set(index, None);
        self.free_list.push_back(index);
        proof {
            let after = self@;
            let expected = before.release(registration@);
            assert(after.slots =~= expected.slots);
            assert(after.free =~= expected.free);
            lemma_release_keeps_wf(before, registration@);
        }
    }
}

impl<T> Registration<T> {
    /// The tracked object, borrowed from the registrar that owns it, or
    /// nothing when the object has been freed.
    pub fn get<'a>(&self, registrar: &'a Registrar<T>) -> (object: Option<&'a T>)
        requires
            registrar.wf(),
        ensures
            match object {
                Some(found) => registrar@.resolve(self@) == Some(*found),
                None => registrar@.resolve(self@) is None,
            },
    {
        let index = self.index;
        if index < registrar.objects.len() && registrar.stamps[index] == self.stamp {
            registrar.objects[index].as_ref()
        } else {
            None
        }
    }

    /// The slot that this registration names.
    pub fn index(&self) -> (index: usize)
        ensures
            index == self@.index,
    {
        self.index
    }

    /// A second ticket for the same object.
    pub fn duplicate(&self) -> (copy: Self)
        ensures
            copy@ == self@,
    {
        Registration { index: self.index, stamp: self.stamp, marker: PhantomData }
    }
}

/// Tracking an object keeps a registry well formed.
pub proof fn lemma_track_keeps_wf<T>(registry: Registry<T>, object: T)
    requires
        registry.wf(),
    ensures
        registry.track(object).wf(),
{
    let after = registry.track(object);
    if registry.free.len() > 0 {
        let reused = registry.free[0];
        assert forall|k: int| 0 <= k < after.free.len() implies (#[trigger] after.free[k])
            < after.slots.len() && after.slots[after.free[k] as int] is None by {
            assert(after.free[k] == registry.free[k + 1]);
            assert(registry.free[k + 1] != registry.free[0]);
        }
        assert forall|j: int, k: int| 0 <= j < k < after.free.len() implies after.free[j]
            != after.free[k] by {
            assert(after.free[j] == registry.free[j + 1]);
            assert(after.free[k] == registry.free[k + 1]);
        }
        assert forall|s: int|
            0 <= s < after.slots.len() && (#[trigger] after.slots[s]) is None implies after.free.contains(
            s as nat,
        ) by {
            assert(s != reused);
            assert(registry.slots[s] is None);
            let k = choose|k: int| 0 <= k < registry.free.len() && registry.free[k] == s as nat;
            assert(k != 0);
            assert(after.free[k - 1] == s as nat);
        }
    } else {
        assert forall|s: int|
            0 <= s < after.slots.len() && (#[trigger] after.slots[s]) is None implies after.free.contains(
            s as nat,
        ) by {
            assert(registry.slots[s] is None);
        }
    }
}

/// Freeing a live object keeps a registry well formed.
pub proof fn lemma_release_keeps_wf<T>(registry: Registry<T>, t: Ticket)
    requires
        registry.wf(),
        registry.is_live(t),
    ensures
        registry.release(t).wf(),
{
    let after = registry.release(t);
    let last = registry.free.len() as int;
    assert forall|k: int| 0 <= k < after.free.len() implies (#[trigger] after.free[k])
        < after.slots.len() && after.slots[after.free[k] as int] is None by {
        if k < last {
            assert(after.free[k] == registry.free[k]);
        }
    }
    assert forall|j: int, k: int| 0 <= j < k < after.free.len() implies after.free[j]
        != after.free[k] by {
        assert(after.free[j] == registry.free[j]);
        if k < last {
            assert(after.free[k] == registry.free[k]);
        }
    }
    assert forall|s: int|
        0 <= s < after.slots.len() && (#[trigger] after.slots[s]) is None implies after.free.contains(
        s as nat,
    ) by {
        if s == t.index {
            assert(after.free[last] == s as nat);
        } else {
            assert(registry.slots[s] is None);
            let k = choose|k: int| 0 <= k < registry.free.len() && registry.free[k] == s as nat;
            assert(after.free[k] == s as nat);
        }
    }
}

/// A step in the life of a registrar.
pub enum Step<T> {
    /// An object is tracked.
    Track(T),
    /// The object behind a ticket is freed.
    Free(Ticket),
}

/// The registry that results from `steps`, taken in order from the empty
/// registry.
pub open spec fn run<T>(steps: Seq<Step<T>>) -> Registry<T>
    decreases steps.len(),
{
    if steps.len() == 0 {
        Registry::empty()
    } else {
        let before = run(steps.drop_last());
        match steps.last() {
            Step::Track(object) => before.track(object),
            Step::Free(t) => before.release(t),
        }
    }
}

/// Every free in `steps` names a ticket that is live when its turn comes.
pub open spec fn permitted<T>(steps: Seq<Step<T>>) -> bool {
    forall|k: int|
        0 <= k < steps.len() ==> ((#[trigger] steps[k]) matches Step::Free(t) ==> run(
            steps.take(k),
        ).is_live(t))
}

/// The ticket handed out by step `k` of `steps`, which tracks an object.
pub open spec fn ticket_of<T>(steps: Seq<Step<T>>, k: int) -> Ticket {
    run(steps.take(k)).next_ticket()
}

/// Some step of `steps` from `from` on frees `t`.
pub open spec fn freed_since<T>(steps: Seq<Step<T>>, from: int, t: Ticket) -> bool {
    exists|j: int| from <= j < steps.len() && #[trigger] steps[j] == Step::<T>::Free(t)
}

/// The registration of a newly tracked object resolves to that object, and
/// every other ticket resolves as it did before.
pub proof fn law_track_resolves<T>(registry: Registry<T>, object: T, other: Ticket)
    requires
        registry.wf(),
    ensures
        registry.track(object).resolve(registry.next_ticket()) == Some(object),
        other != registry.next_ticket() ==> registry.track(object).resolve(other)
            == registry.resolve(other),
{
}

/// After its object is freed a registration resolves to nothing, and every
/// other ticket resolves as it did before.
pub proof fn law_release_resolves<T>(registry: Registry<T>, t: Ticket, other: Ticket)
    requires
        registry.wf(),
        registry.is_live(t),
    ensures
        registry.release(t).resolve(t) is None,
        other != t ==> registry.release(t).resolve(other) == registry.resolve(other),
{
}

/// A ticket that was issued and has stopped resolving never resolves again,
/// whatever is tracked or freed afterwards.
pub proof fn law_freed_stays_freed<T>(registry: Registry<T>, freed: Ticket, object: T, t: Ticket)
    requires
        registry.wf(),
        registry.has_issued(freed),
        !registry.is_live(freed),
    ensures
        !registry.track(object).is_live(freed),
        registry.track(object).has_issued(freed),
        registry.is_live(t) ==> !registry.release(t).is_live(freed),
        registry.release(t).has_issued(freed),
{
}

/// Two live registrations never name the same slot.
pub proof fn law_live_slots_distinct<T>(registry: Registry<T>, a: Ticket, b: Ticket)
    requires
        registry.wf(),
        registry.is_live(a),
        registry.is_live(b),
        a.index == b.index,
    ensures
        a == b,
{
}

/// A live registration was issued by this registry, and is not the one that
/// the next object gets.
pub proof fn law_live_was_issued<T>(registry: Registry<T>, live: Ticket)
    requires
        registry.wf(),
        registry.is_live(live),
    ensures
        registry.has_issued(live),
        live != registry.next_ticket(),
{
    assert(registry.slots[live.index as int] is Some);
}

/// The slot given to the next object is named by no live registration: it is
/// a new slot, or one that was vacated by a free and waits in the queue.
pub proof fn law_issued_slot_is_vacant<T>(registry: Registry<T>, live: Ticket)
    requires
        registry.wf(),
    ensures
        registry.is_live(live) ==> live.index != registry.next_index(),
        registry.next_index() < registry.slots.len() ==> registry.slots[registry.next_index() as int] is None
            && registry.free.contains(registry.next_index()),
        registry.next_index() <= registry.slots.len(),
{
    if registry.free.len() > 0 {
        assert(registry.free[0] < registry.slots.len());
    }
}

/// Whatever steps a registrar has gone through, its registry is well formed.
pub proof fn law_run_wf<T>(steps: Seq<Step<T>>)
    requires
        permitted(steps),
    ensures
        run(steps).wf(),
    decreases steps.len(),
{
    if steps.len() > 0 {
        let shorter = steps.drop_last();
        lemma_permitted_prefix(steps, steps.len() - 1);
        assert(steps.take(steps.len() - 1) =~= shorter);
        law_run_wf(shorter);
        match steps.last() {
            Step::Track(object) => {
                lemma_track_keeps_wf(run(shorter), object);
            },
            Step::Free(t) => {
                assert(steps[steps.len() - 1] == steps.last());
                lemma_release_keeps_wf(run(shorter), t);
            },
        }
    }
}

/// A prefix of a permitted sequence of steps is permitted.
pub proof fn lemma_permitted_prefix<T>(steps: Seq<Step<T>>, n: int)
    requires
        permitted(steps),
        0 <= n <= steps.len(),
    ensures
        permitted(steps.take(n)),
{
    let prefix = steps.take(n);
    assert forall|k: int| 0 <= k < prefix.len() implies ((#[trigger] prefix[k]) matches Step::Free(
        t,
    ) ==> run(prefix.take(k)).is_live(t)) by {
        assert(prefix[k] == steps[k]);
        assert(prefix.take(k) =~= steps.take(k));
    }
}

/// Whether a free of `t` occurs from `from` on, told by the last step and
/// the steps before it.
pub proof fn lemma_freed_since_last<T>(steps: Seq<Step<T>>, from: int, t: Ticket)
    requires
        0 <= from < steps.len(),
    ensures
        freed_since(steps, from, t) <==> (freed_since(steps.drop_last(), from, t) || steps.last()
            == Step::<T>::Free(t)),
{
    let shorter = steps.drop_last();
    let last = steps.len() - 1;
    if freed_since(steps, from, t) {
        let j = choose|j: int| from <= j < steps.len() && #[trigger] steps[j] == Step::<T>::Free(t);
        if j < last {
            assert(shorter[j] == Step::<T>::Free(t));
        }
    }
    if freed_since(shorter, from, t) {
        let j = choose|j: int| from <= j < shorter.len() && #[trigger] shorter[j] == Step::<T>::Free(t);
        assert(steps[j] == Step::<T>::Free(t));
    }
    if steps.last() == Step::<T>::Free(t) {
        assert(steps[last] == Step::<T>::Free(t));
    }
}

/// Over any permitted sequence of steps, the registration handed out when an
/// object was tracked resolves to exactly that object for as long as it has
/// not been freed, and to nothing from the moment it has.
pub proof fn law_resolution_over_time<T>(steps: Seq<Step<T>>, k: int, object: T)
    requires
        permitted(steps),
        0 <= k < steps.len(),
        steps[k] == Step::Track(object),
    ensures
        run(steps).has_issued(ticket_of(steps, k)),
        !freed_since(steps, k + 1, ticket_of(steps, k)) ==> run(steps).resolve(ticket_of(steps, k))
            == Some(object),
        freed_since(steps, k + 1, ticket_of(steps, k)) ==> run(steps).resolve(ticket_of(steps, k))
            is None,
    decreases steps.len(),
{
    let t = ticket_of(steps, k);
    let shorter = steps.drop_last();
    let last = steps.len() - 1;
    lemma_permitted_prefix(steps, last);
    assert(steps.take(last) =~= shorter);
    law_run_wf(shorter);
    let before = run(shorter);
    if k == last {
        assert(steps.last() == Step::Track(object));
        law_track_resolves(before, object, t);
        assert(!freed_since(steps, k + 1, t));
    } else {
        assert(shorter[k] == steps[k]);
        assert(shorter.take(k) =~= steps.take(k));
        law_resolution_over_time(shorter, k, object);
        lemma_freed_since_last(steps, k + 1, t);
        match steps.last() {
            Step::Track(later) => {
                law_track_resolves(before, later, t);
                if !before.is_live(t) {
                    law_freed_stays_freed(before, t, later, t);
                }
            },
            Step::Free(other) => {
                assert(steps[last] == steps.last());
                assert(before.is_live(other));
                law_release_resolves(before, other, t);
            },
        }
    }
}

/// Over any permitted sequence of steps, two registrations that are live at
/// the same time and were handed out by different steps name different slots.
pub proof fn law_slots_never_shared<T>(steps: Seq<Step<T>>, j: int, k: int)
    requires
        permitted(steps),
        0 <= j < k < steps.len(),
        steps[j] is Track,
        steps[k] is Track,
        run(steps).is_live(ticket_of(steps, j)),
        run(steps).is_live(ticket_of(steps, k)),
    ensures
        ticket_of(steps, j).index != ticket_of(steps, k).index,
{
    law_run_wf(steps);
    lemma_issued_grows(steps, j + 1, k);
    assert(steps.take(j + 1).drop_last() =~= steps.take(j));
    assert(steps.take(j + 1).last() == steps[j]);
    assert(ticket_of(steps, j).stamp < ticket_of(steps, k).stamp);
    if ticket_of(steps, j).index == ticket_of(steps, k).index {
        law_live_slots_distinct(run(steps), ticket_of(steps, j), ticket_of(steps, k));
    }
}

/// The slots of a registrar are never taken away.
pub proof fn lemma_slots_grow<T>(steps: Seq<Step<T>>, m: int, n: int)
    requires
        permitted(steps),
        0 <= m <= n <= steps.len(),
    ensures
        run(steps.take(m)).slots.len() <= run(steps.take(n)).slots.len(),
    decreases n - m,
{
    if m < n {
        lemma_slots_grow(steps, m, n - 1);
        lemma_permitted_prefix(steps, n - 1);
        law_run_wf(steps.take(n - 1));
        assert(steps.take(n).drop_last() =~= steps.take(n - 1));
        assert(steps.take(n).last() == steps[n - 1]);
        match steps[n - 1] {
            Step::Track(object) => {
                if run(steps.take(n - 1)).free.len() > 0 {
                    assert(run(steps.take(n - 1)).free[0] < run(steps.take(n - 1)).slots.len());
                }
            },
            Step::Free(t) => {
                assert(run(steps.take(n - 1)).is_live(t));
            },
        }
    }
}

/// A slot that is filled after `m` steps and vacant after all of `steps` was
/// vacated by a free of that slot in between.
pub proof fn lemma_vacated_by_free<T>(steps: Seq<Step<T>>, m: int, slot: int)
    requires
        permitted(steps),
        0 <= m <= steps.len(),
        0 <= slot < run(steps.take(m)).slots.len(),
        run(steps.take(m)).slots[slot] is Some,
        slot < run(steps).slots.len(),
        run(steps).slots[slot] is None,
    ensures
        exists|r: int|
            m <= r < steps.len() && ((#[trigger] steps[r]) matches Step::Free(t) && t.index
                == slot),
    decreases steps.len() - m,
{
    let last = steps.len() - 1;
    if m == steps.len() {
        assert(steps.take(m) =~= steps);
    } else {
        let shorter = steps.drop_last();
        lemma_permitted_prefix(steps, last);
        assert(steps.take(last) =~= shorter);
        assert(shorter.take(m) =~= steps.take(m));
        lemma_slots_grow(steps, m, last);
        law_run_wf(shorter);
        let before = run(shorter);
        if before.slots[slot] is None {
            lemma_vacated_by_free(shorter, m, slot);
            let r = choose|r: int|
                m <= r < shorter.len() && ((#[trigger] shorter[r]) matches Step::Free(t)
                    && t.index == slot);
            assert(steps[r] == shorter[r]);
        } else {
            match steps.last() {
                Step::Track(object) => {
                    if before.free.len() > 0 {
                        assert(before.free[0] < before.slots.len());
                    }
                },
                Step::Free(t) => {
                    assert(steps[last] == steps.last());
                    assert(t.index == slot);
                },
            }
        }
    }
}

/// Over any permitted sequence of steps, a slot is handed out a second time
/// only after a free of that very slot.
pub proof fn law_reuse_follows_free<T>(steps: Seq<Step<T>>, j: int, k: int)
    requires
        permitted(steps),
        0 <= j < k < steps.len(),
        steps[j] is Track,
        steps[k] is Track,
        ticket_of(steps, j).index == ticket_of(steps, k).index,
    ensures
        exists|r: int|
            j < r < k && ((#[trigger] steps[r]) matches Step::Free(t) && t.index == ticket_of(
                steps,
                j,
            ).index),
{
    let slot = ticket_of(steps, j).index as int;
    let until = steps.take(k);
    lemma_permitted_prefix(steps, k);
    lemma_permitted_prefix(steps, j);
    law_run_wf(until);
    law_run_wf(steps.take(j));
    assert(until.take(j + 1) =~= steps.take(j + 1));
    assert(steps.take(j + 1).drop_last() =~= steps.take(j));
    assert(steps.take(j + 1).last() == steps[j]);
    let at_j = run(steps.take(j));
    let after_j = run(steps.take(j + 1));
    law_issued_slot_is_vacant(at_j, at_j.next_ticket());
    assert(after_j.slots[slot] is Some);
    lemma_slots_grow(steps, j + 1, k);
    let at_k = run(until);
    law_issued_slot_is_vacant(at_k, at_k.next_ticket());
    assert(until.take(k) =~= until);
    lemma_vacated_by_free(until, j + 1, slot);
    let r = choose|r: int|
        j + 1 <= r < until.len() && ((#[trigger] until[r]) matches Step::Free(t) && t.index
            == slot);
    assert(steps[r] == until[r]);
}

/// The count of issued registrations never goes down.
pub proof fn lemma_issued_grows<T>(steps: Seq<Step<T>>, m: int, n: int)
    requires
        0 <= m <= n <= steps.len(),
    ensures
        run(steps.take(m)).issued <= run(steps.take(n)).issued,
    decreases n - m,
{
    if m < n {
        lemma_issued_grows(steps, m, n - 1);
        assert(steps.take(n).drop_last() =~= steps.take(n - 1));
    }
}

} // verus!
