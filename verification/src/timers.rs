//! Timers of a guest's single-threaded executor, with time as a number of
//! ticks (the app counts nanoseconds from a fixed instant).
use vstd::prelude::*;
use vstd::multiset::Multiset;

verus! {

/// What a poll of a [`TimerFuture`] asks of the executor.
#[derive(Debug, PartialEq, Eq, Clone, Copy, Structural)]
pub enum PollStep {
    /// The timer is due: the future is ready.
    Ready,
    /// Not due yet: register a wake-up at the given tick, then wait.
    SetTimer(u64),
    /// Not due yet, and the wake-up is registered already: wait.
    Wait,
}

/// A future that is ready once the time reaches its destination.
pub struct TimerFuture {
    dest: u64,
    timer_was_set: bool,
}

impl View for TimerFuture {
    /// The destination tick, and whether a wake-up has been registered.
    type V = (u64, bool);

    closed spec fn view(&self) -> (u64, bool) {
        (self.dest, self.timer_was_set)
    }
}

impl TimerFuture {
    /// A timer that is due `duration` ticks after `now`.
    pub fn new(now: u64, duration: u64) -> (res: Self)
        requires
            now + duration <= u64::MAX,
        ensures
            res@.0 == now + duration,
            !res@.1,
    {
        TimerFuture { dest: now + duration, timer_was_set: false }
    }

    /// Polls the timer at tick `now`. A wake-up is registered at most once:
    /// the first poll before the destination asks for it, later ones wait.
    pub fn poll(&mut self, now: u64) -> (res: PollStep)
        ensures
            final(self)@.0 == old(self)@.0,
            now >= old(self)@.0 ==> res == PollStep::Ready && final(self)@ == old(self)@,
            now < old(self)@.0 && !old(self)@.1 ==> res == PollStep::SetTimer(old(self)@.0)
                && final(self)@.1,
            now < old(self)@.0 && old(self)@.1 ==> res == PollStep::Wait && final(self)@.1,
    {
        if now >= self.dest {
            return PollStep::Ready;
        }
        if !self.timer_was_set {
            self.timer_was_set = true;
            return PollStep::SetTimer(self.dest);
        }
        PollStep::Wait
    }
}

/// A registered callback and its due tick; the callback is taken when it
/// fires.
pub struct Timer<T> {
    pub callback: Option<T>,
    pub dest: u64,
}

/// The timers registered so far.
pub struct Timers<T> {
    timers: Vec<Timer<T>>,
}

impl<T> View for Timers<T> {
    type V = Seq<Timer<T>>;

    closed spec fn view(&self) -> Seq<Timer<T>> {
        self.timers@
    }
}

/// A timer is due once its tick is strictly before `now`.
pub open spec fn is_due<T>(t: Timer<T>, now: u64) -> bool {
    t.dest < now
}

/// The positions of the due timers, in increasing order.
pub open spec fn due_indices<T>(s: Seq<Timer<T>>, now: u64) -> Seq<int>
    decreases s.len(),
{
    if s.len() == 0 {
        Seq::empty()
    } else {
        due_indices(s.drop_last(), now) + if is_due(s.last(), now) {
            seq![s.len() - 1]
        } else {
            Seq::empty()
        }
    }
}

/// The callbacks of the due timers, in order.
pub open spec fn fired_callbacks<T>(s: Seq<Timer<T>>, now: u64) -> Seq<T>
    decreases s.len(),
{
    if s.len() == 0 {
        Seq::empty()
    } else {
        fired_callbacks(s.drop_last(), now) + if is_due(s.last(), now) {
            seq![s.last().callback->Some_0]
        } else {
            Seq::empty()
        }
    }
}

/// The timers with the callbacks of the due ones taken.
pub open spec fn cleared<T>(s: Seq<Timer<T>>, now: u64) -> Seq<Timer<T>> {
    Seq::new(
        s.len(),
        |i: int|
            if is_due(s[i], now) {
                Timer { callback: None, dest: s[i].dest }
            } else {
                s[i]
            },
    )
}

/// `s` after removing, one after the other, the element at each index
/// of `idxs`, each time moving the last element into the hole.
pub open spec fn swap_remove_all<A>(s: Seq<A>, idxs: Seq<int>) -> Seq<A>
    decreases idxs.len(),
{
    if idxs.len() == 0 {
        s
    } else {
        swap_remove_all(s.update(idxs[0], s.last()).drop_last(), idxs.drop_first())
    }
}

/// Each removal of [`swap_remove_all`] finds its index in bounds.
pub open spec fn removable(len: int, idxs: Seq<int>) -> bool {
    forall|k: int| 0 <= k < idxs.len() ==> 0 <= #[trigger] idxs[k] < len - k
}

/// A tick can run: every due timer still has its callback, and each
/// removal finds its index in bounds.
pub open spec fn can_tick<T>(s: Seq<Timer<T>>, now: u64) -> bool {
    &&& forall|i: int| 0 <= i < s.len() && is_due(#[trigger] s[i], now) ==> s[i].callback is Some
    &&& removable(s.len() as int, due_indices(s, now))
}

proof fn lemma_due_indices_bounds<T>(s: Seq<Timer<T>>, now: u64)
    ensures
        forall|k: int| 0 <= k < due_indices(s, now).len() ==> 0 <= #[trigger] due_indices(s, now)[k] < s.len(),
        due_indices(s, now).len() <= s.len(),
    decreases s.len(),
{
    if s.len() > 0 {
        lemma_due_indices_bounds(s.drop_last(), now);
    }
}

proof fn lemma_due_prefix<T>(s: Seq<Timer<T>>, now: u64, k: int)
    requires
        0 <= k <= s.len(),
    ensures
        due_indices(s.take(k), now).len() <= due_indices(s, now).len(),
        forall|j: int| 0 <= j < due_indices(s.take(k), now).len() ==> #[trigger] due_indices(s, now)[j] == due_indices(s.take(k), now)[j],
    decreases s.len() - k,
{
    if k == s.len() {
        assert(s.take(k) =~= s);
    } else {
        lemma_due_prefix(s, now, k + 1);
        assert(s.take(k + 1).drop_last() =~= s.take(k));
    }
}

impl<T> Timers<T> {
    /// No timer.
    pub fn new() -> (res: Self)
        ensures
            res@ == Seq::<Timer<T>>::empty(),
    {
        Timers { timers: Vec::new() }
    }

    /// Registers `callback` to fire once the time passes `dest`.
    pub fn set_timeout(&mut self, callback: T, dest: u64)
        ensures
            final(self)@ == old(self)@.push(Timer { callback: Some(callback), dest }),
    {
        self.timers.push(Timer { callback: Some(callback), dest });
    }

    /// Whether a tick at `now` can run (see [`can_tick`]).
    pub fn can_run_tick(&self, now: u64) -> (res: bool)
        ensures
            res == can_tick(self@, now),
    {
        let n = self.timers.len();
        let mut i: usize = 0;
        let mut count: usize = 0;
        let ghost s = self.timers@;
        assert(s.take(0) =~= Seq::<Timer<T>>::empty());
        while i < n
            invariant
                n == s.len(),
                s == self.timers@,
                i <= n,
                count == due_indices(s.take(i as int), now).len(),
                count <= i,
                forall|j: int| 0 <= j < i && is_due(#[trigger] s[j], now) ==> s[j].callback is Some,
                removable(n as int, due_indices(s.take(i as int), now)),
            decreases n - i,
        {
            let ghost pre = s.take(i + 1);
            assert(pre.drop_last() =~= s.take(i as int));
            assert(pre.last() == s[i as int]);
            let t = &self.timers[i];
            if t.dest < now {
                if t.callback.is_none() || i >= n - count {
                    proof {
                        lemma_due_prefix(s, now, i + 1);
                        let d = due_indices(s, now);
                        let dp = due_indices(pre, now);
                        assert(dp.last() == i as int);
                        assert(d[count as int] == dp[count as int]);
                    }
                    return false;
                }
                assert(due_indices(pre, now) =~= due_indices(s.take(i as int), now).push(i as int));
                count = count + 1;
            } else {
                assert(due_indices(pre, now) =~= due_indices(s.take(i as int), now));
            }
            i = i + 1;
        }
        assert(s.take(i as int) =~= s);
        true
    }

    /// Fires the due timers as [`run_tick`](Self::run_tick) does, when a
    /// tick can run; otherwise changes nothing and returns `None`.
    pub fn try_run_tick(&mut self, now: u64) -> (res: Option<Vec<T>>)
        ensures
            res is Some <==> can_tick(old(self)@, now),
            res matches Some(fired) ==> fired@ == fired_callbacks(old(self)@, now)
                && final(self)@ == swap_remove_all(cleared(old(self)@, now), due_indices(old(self)@, now)),
            res is None ==> final(self)@ == old(self)@,
    {
        if self.can_run_tick(now) {
            Some(self.run_tick(now))
        } else {
            None
        }
    }

    /// Fires the due timers: returns their callbacks in order, and removes
    /// them one by one, by increasing position, each time moving the last
    /// timer into the hole.
    pub fn run_tick(&mut self, now: u64) -> (fired: Vec<T>)
        requires
            can_tick(old(self)@, now),
        ensures
            fired@ == fired_callbacks(old(self)@, now),
            final(self)@ == swap_remove_all(cleared(old(self)@, now), due_indices(old(self)@, now)),
            final(self)@.to_multiset() == pending(old(self)@, now).to_multiset(),
    {
        proof {
            lemma_tick_keeps_exactly_pending(old(self)@, now);
        }
        let ghost s = self.timers@;
        let mut rest: Vec<Timer<T>> = Vec::new();
        std::mem::swap(&mut rest, &mut self.timers);
        let mut kept: Vec<Timer<T>> = Vec::new();
        let mut fired: Vec<T> = Vec::new();
        let mut to_remove: Vec<usize> = Vec::new();
        let mut idx: usize = 0;
        assert(s.take(0) =~= Seq::<Timer<T>>::empty());
        assert(rest@ == s.skip(0));
        assert(s.len() == rest.len());
        while rest.len() > 0
            invariant
                idx <= s.len(),
                s.len() <= usize::MAX,
                rest@ == s.skip(idx as int),
                can_tick(s, now),
                kept@ == cleared(s, now).take(idx as int),
                fired@ == fired_callbacks(s.take(idx as int), now),
                to_remove@.map_values(|x: usize| x as int) == due_indices(s.take(idx as int), now),
            decreases rest.len(),
        {
            let mut t = rest.remove(0);
            assert(t == s[idx as int]);
            assert(s.skip(idx as int).remove(0) =~= s.skip(idx + 1));
            let ghost pre = s.take(idx + 1);
            assert(pre.drop_last() =~= s.take(idx as int));
            assert(pre.last() == t);
            if t.dest < now {
                let cb = t.callback.take();
                match cb {
                    Some(c) => {
                        fired.push(c);
                    },
                    None => {
                        proof {
                            assert(is_due(s[idx as int], now));
                        }
                    },
                }
                let ghost old_rm = to_remove@;
                to_remove.push(idx);
                assert(to_remove@.map_values(|x: usize| x as int) =~= old_rm.map_values(|x: usize| x as int).push(idx as int));
            } else {
                assert(due_indices(pre, now) =~= due_indices(s.take(idx as int), now));
                assert(fired_callbacks(pre, now) =~= fired_callbacks(s.take(idx as int), now));
            }
            kept.push(t);
            assert(kept@ =~= cleared(s, now).take(idx + 1));
            idx = idx + 1;
        }
        assert(s.skip(idx as int).len() == 0);
        assert(s.take(idx as int) =~= s);
        assert(kept@ =~= cleared(s, now));
        let ghost due = due_indices(s, now);
        let ghost c = cleared(s, now);
        proof {
            lemma_due_indices_bounds(s, now);
        }
        let mut k: usize = 0;
        assert(due.skip(0) =~= due);
        while k < to_remove.len()
            invariant
                k <= to_remove.len(),
                to_remove@.map_values(|x: usize| x as int) == due,
                removable(s.len() as int, due),
                due.len() <= s.len(),
                kept.len() == s.len() - k,
                swap_remove_all(c, due) == swap_remove_all(kept@, due.skip(k as int)),
            decreases to_remove.len() - k,
        {
            let i = to_remove[k];
            assert(due[k as int] == i as int);
            let ghost before = kept@;
            kept.swap_remove(i);
            assert(due.skip(k as int)[0] == i as int);
            assert(due.skip(k as int).drop_first() =~= due.skip(k + 1));
            k = k + 1;
        }
        assert(due.skip(k as int) =~= Seq::<int>::empty());
        self.timers = kept;
        fired
    }
}


/// The timers that are not due, in order.
pub open spec fn pending<T>(s: Seq<Timer<T>>, now: u64) -> Seq<Timer<T>>
    decreases s.len(),
{
    if s.len() == 0 {
        Seq::empty()
    } else {
        pending(s.drop_last(), now) + if is_due(s.last(), now) {
            Seq::empty()
        } else {
            seq![s.last()]
        }
    }
}

/// The elements of `c` at the positions `idxs`.
pub open spec fn at_positions<A>(c: Seq<A>, idxs: Seq<int>) -> Seq<A> {
    idxs.map_values(|i: int| c[i])
}

pub open spec fn strictly_increasing(idxs: Seq<int>) -> bool {
    forall|a: int, b: int| 0 <= a < b < idxs.len() ==> #[trigger] idxs[a] < #[trigger] idxs[b]
}

proof fn lemma_due_indices_increasing<T>(s: Seq<Timer<T>>, now: u64)
    ensures
        strictly_increasing(due_indices(s, now)),
    decreases s.len(),
{
    if s.len() > 0 {
        lemma_due_indices_increasing(s.drop_last(), now);
        lemma_due_indices_bounds(s.drop_last(), now);
        let d0 = due_indices(s.drop_last(), now);
        let d = due_indices(s, now);
        assert forall|a: int, b: int| 0 <= a < b < d.len() implies #[trigger] d[a] < #[trigger] d[b] by {
            assert(d[a] == d0[a]);
            if b < d0.len() {
                assert(d[b] == d0[b]);
            }
        }
    }
}

proof fn lemma_empty_to_multiset<A>()
    ensures
        Seq::<A>::empty().to_multiset() == Multiset::<A>::empty(),
{
    vstd::seq_lib::to_multiset_len(Seq::<A>::empty());
    vstd::multiset::lemma_multiset_empty_len(Seq::<A>::empty().to_multiset());
}

/// Removing the elements at increasing, removable positions one by one
/// leaves the multiset of the others.
proof fn lemma_swap_remove_all_multiset<A>(c: Seq<A>, idxs: Seq<int>)
    requires
        removable(c.len() as int, idxs),
        strictly_increasing(idxs),
    ensures
        swap_remove_all(c, idxs).to_multiset() == c.to_multiset().sub(
            at_positions(c, idxs).to_multiset(),
        ),
    decreases idxs.len(),
{
    broadcast use vstd::multiset::group_multiset_axioms;
    broadcast use vstd::seq_lib::to_multiset_build;
    if idxs.len() == 0 {
        assert(at_positions(c, idxs) =~= Seq::<A>::empty());
        lemma_empty_to_multiset::<A>();
        assert(c.to_multiset().sub(Multiset::<A>::empty()) =~= c.to_multiset());
    } else {
        let i0 = idxs[0];
        assert(0 <= i0 < c.len());
        let u = c.update(i0, c.last());
        let s1 = u.drop_last();
        let rest = idxs.drop_first();
        assert forall|k: int| 0 <= k < rest.len() implies 0 <= #[trigger] rest[k] < s1.len() - k by {
            assert(rest[k] == idxs[k + 1]);
        }
        assert forall|a: int, b: int| 0 <= a < b < rest.len() implies #[trigger] rest[a] < #[trigger] rest[b] by {
            assert(rest[a] == idxs[a + 1] && rest[b] == idxs[b + 1]);
        }
        lemma_swap_remove_all_multiset(s1, rest);
        vstd::seq_lib::to_multiset_update(c, i0, c.last());
        assert(s1 =~= u.remove(u.len() - 1));
        vstd::seq_lib::to_multiset_remove(u, u.len() - 1);
        assert(u[u.len() - 1] == c.last());
        assert(s1.to_multiset() =~= c.to_multiset().remove(c[i0]));
        assert forall|k: int| 0 <= k < rest.len() implies #[trigger] s1[rest[k]] == c[rest[k]] by {
            assert(rest[k] == idxs[k + 1]);
            assert(idxs[0] < idxs[k + 1]);
        }
        assert(at_positions(s1, rest) =~= at_positions(c, rest));
        assert(at_positions(c, idxs) =~= seq![c[i0]] + at_positions(c, rest));
        vstd::seq_lib::lemma_multiset_commutative(seq![c[i0]], at_positions(c, rest));
        assert(seq![c[i0]].to_multiset() =~= Multiset::<A>::empty().insert(c[i0])) by {
            assert(seq![c[i0]] =~= Seq::<A>::empty().push(c[i0]));
            lemma_empty_to_multiset::<A>();
        }
        let r = at_positions(c, rest).to_multiset();
        assert(at_positions(c, idxs).to_multiset() =~= r.insert(c[i0])) by {
            assert(at_positions(c, rest) + seq![c[i0]] =~= at_positions(c, rest).push(c[i0]));
        }
        assert(c.to_multiset().remove(c[i0]).sub(r) =~= c.to_multiset().sub(r.insert(c[i0])));
    }
}

/// The cleared timers split into the pending ones and the due ones.
proof fn lemma_cleared_split<T>(s: Seq<Timer<T>>, now: u64)
    ensures
        cleared(s, now).to_multiset() == pending(s, now).to_multiset().add(
            at_positions(cleared(s, now), due_indices(s, now)).to_multiset(),
        ),
    decreases s.len(),
{
    broadcast use vstd::multiset::group_multiset_axioms;
    broadcast use vstd::seq_lib::to_multiset_build;
    if s.len() == 0 {
        assert(cleared(s, now) =~= Seq::<Timer<T>>::empty());
        assert(at_positions(cleared(s, now), due_indices(s, now)) =~= Seq::<Timer<T>>::empty());
        lemma_empty_to_multiset::<Timer<T>>();
        assert(Multiset::<Timer<T>>::empty().add(Multiset::<Timer<T>>::empty()) =~= Multiset::<Timer<T>>::empty());
    } else {
        let s0 = s.drop_last();
        lemma_cleared_split(s0, now);
        lemma_due_indices_bounds(s0, now);
        let c = cleared(s, now);
        let c0 = cleared(s0, now);
        let x = c[s.len() - 1];
        assert(c =~= c0.push(x));
        let d0 = due_indices(s0, now);
        let p0 = pending(s0, now);
        let r0 = at_positions(c0, d0);
        assert(at_positions(c, d0) =~= r0);
        if is_due(s.last(), now) {
            assert(due_indices(s, now) =~= d0.push(s.len() - 1));
            assert(at_positions(c, due_indices(s, now)) =~= r0.push(x));
            assert(pending(s, now) =~= p0);
            assert(c0.push(x).to_multiset() =~= c0.to_multiset().insert(x));
            assert(r0.push(x).to_multiset() =~= r0.to_multiset().insert(x));
            assert(c.to_multiset() =~= p0.to_multiset().add(r0.to_multiset().insert(x)));
        } else {
            assert(due_indices(s, now) =~= d0);
            assert(x == s.last());
            assert(pending(s, now) =~= p0.push(x));
            assert(p0.push(x).to_multiset() =~= p0.to_multiset().insert(x));
            assert(c.to_multiset() =~= p0.to_multiset().insert(x).add(r0.to_multiset()));
        }
    }
}

/// After a tick, the timers that remain are exactly the ones that were not
/// due (as a multiset: their order may change).
pub proof fn lemma_tick_keeps_exactly_pending<T>(s: Seq<Timer<T>>, now: u64)
    requires
        can_tick(s, now),
    ensures
        swap_remove_all(cleared(s, now), due_indices(s, now)).to_multiset() == pending(
            s,
            now,
        ).to_multiset(),
{
    broadcast use vstd::multiset::group_multiset_axioms;
    lemma_due_indices_increasing(s, now);
    let c = cleared(s, now);
    let d = due_indices(s, now);
    lemma_swap_remove_all_multiset(c, d);
    lemma_cleared_split(s, now);
    let p = pending(s, now).to_multiset();
    let r = at_positions(c, d).to_multiset();
    assert(p.add(r).sub(r) =~= p);
}

} // verus!
