//! Rolling windows of closing prices. The items are generic: the library
//! never looks inside a price, it only keeps, drops and orders them.

use vstd::prelude::*;
use std::collections::VecDeque;
use vstd::hash_map::StringHashMap;

verus! {

/// One kline as the seeding step reads it: its close time, if the exchange
/// gave one as an integer, and its close price, if it could be read.
#[derive(Clone, Copy, Debug, PartialEq)]
pub struct Kline<T> {
    pub close_time_ms: Option<i64>,
    pub close: Option<T>,
}

/// Appends `x` to a window that holds at most `cap` items: when the window
/// is full, its oldest item leaves first.
pub open spec fn spec_push_bounded<T>(s: Seq<T>, cap: nat, x: T) -> Seq<T> {
    (if s.len() == cap && s.len() > 0 { s.drop_first() } else { s }).push(x)
}

/// The last `n` items of `s` (all of them when there are fewer).
pub open spec fn last_n<T>(s: Seq<T>, n: nat) -> Seq<T> {
    if s.len() <= n { s } else { s.subrange(s.len() - n, s.len() as int) }
}

/// A kline counts when it has closed by `now_ms` and its close was read.
pub open spec fn kline_counts<T>(k: Kline<T>, now_ms: i64) -> bool {
    &&& k.close_time_ms matches Some(t) && t <= now_ms
    &&& k.close is Some
}

/// The window that pushing each kline of `ks` that counts, in order, into a
/// window of at most `cap` items builds.
spec fn pushed_window<T>(ks: Seq<Kline<T>>, now_ms: i64, cap: nat) -> Seq<T>
    decreases ks.len(),
{
    if ks.len() == 0 {
        Seq::empty()
    } else {
        let w = pushed_window(ks.drop_last(), now_ms, cap);
        let k = ks.last();
        if kline_counts(k, now_ms) {
            spec_push_bounded(w, cap, k.close->0)
        } else {
            w
        }
    }
}

/// The closes of the klines of `ks` that count, in order.
pub open spec fn counted_closes<T>(ks: Seq<Kline<T>>, now_ms: i64) -> Seq<T>
    decreases ks.len(),
{
    if ks.len() == 0 {
        Seq::empty()
    } else {
        let c = counted_closes(ks.drop_last(), now_ms);
        let k = ks.last();
        if kline_counts(k, now_ms) { c.push(k.close->0) } else { c }
    }
}

/// Pushes `x` into `window`, first dropping the oldest item when the window
/// already holds `cap` items.
pub fn push_bounded<T>(window: &mut VecDeque<T>, cap: usize, x: T)
    ensures
        final(window)@ == spec_push_bounded(old(window)@, cap as nat, x),
{
    if window.len() == cap {
        let _ = window.pop_front();
    }
    window.push_back(x);
}

/// Builds the window of a symbol from its recent klines: the klines that
/// closed by `now_ms` and whose close could be read, at most `capacity` of
/// them, the most recent last.
pub fn seed_window<T: Copy>(klines: &Vec<Kline<T>>, now_ms: i64, capacity: usize) -> (w: VecDeque<T>)
    ensures
        w@ == (if capacity == 0 {
            counted_closes(klines@, now_ms)
        } else {
            last_n(counted_closes(klines@, now_ms), capacity as nat)
        }),
{
    let mut w: VecDeque<T> = VecDeque::with_capacity(capacity);
    let mut i: usize = 0;
    while i < klines.len()
        invariant
            i <= klines@.len(),
            w@ == pushed_window(klines@.take(i as int), now_ms, capacity as nat),
        decreases klines@.len() - i,
    {
        let k = &klines[i];
        proof {
            assert(klines@.take(i + 1).drop_last() =~= klines@.take(i as int));
            assert(klines@.take(i + 1).last() == klines@[i as int]);
        }
        match k.close_time_ms {
            Some(t) => {
                if t <= now_ms {
                    match k.close {
                        Some(c) => push_bounded(&mut w, capacity, c),
                        None => {},
                    }
                }
            },
            None => {},
        }
        i = i + 1;
    }
    proof {
        assert(klines@.take(klines@.len() as int) =~= klines@);
        lemma_pushed_window_is_latest(klines@, now_ms, capacity as nat);
    }
    w
}

/// Pushing into a window that already holds the last `cap` items of a
/// history gives the last `cap` items of the history with the new item: the
/// window always holds the most recent closes, at most `cap` of them.
pub proof fn law_window_keeps_latest<T>(history: Seq<T>, cap: nat, x: T)
    requires
        cap >= 1,
    ensures
        spec_push_bounded(last_n(history, cap), cap, x) == last_n(history.push(x), cap),
        last_n(history.push(x), cap).len() <= cap,
{
    let w = last_n(history, cap);
    let h2 = history.push(x);
    if history.len() < cap {
        assert(spec_push_bounded(w, cap, x) =~= last_n(h2, cap));
    } else {
        assert(w.len() == cap);
        assert(spec_push_bounded(w, cap, x) =~= last_n(h2, cap));
    }
}

/// Pushing the klines that count one by one keeps the most recent `cap`
/// of their closes; without a capacity it keeps all of them.
proof fn lemma_pushed_window_is_latest<T>(ks: Seq<Kline<T>>, now_ms: i64, cap: nat)
    ensures
        pushed_window(ks, now_ms, cap) == (if cap == 0 {
            counted_closes(ks, now_ms)
        } else {
            last_n(counted_closes(ks, now_ms), cap)
        }),
    decreases ks.len(),
{
    if ks.len() == 0 {
        assert(last_n(Seq::<T>::empty(), cap) =~= Seq::<T>::empty());
    } else {
        lemma_pushed_window_is_latest(ks.drop_last(), now_ms, cap);
        let k = ks.last();
        if kline_counts(k, now_ms) && cap >= 1 {
            law_window_keeps_latest(counted_closes(ks.drop_last(), now_ms), cap, k.close->0);
        }
    }
}

/// The windows of closing prices of all symbols, by symbol.
pub struct CloseBook<T> {
    index: StringHashMap<usize>,
    windows: Vec<VecDeque<T>>,
}

impl<T> CloseBook<T> {
    /// Every symbol points at its own window.
    pub closed spec fn wf(&self) -> bool {
        &&& forall|k: Seq<char>| #[trigger] self.index@.contains_key(k) ==> self.index@[k] < self.windows@.len()
        &&& forall|k1: Seq<char>, k2: Seq<char>|
            #[trigger] self.index@.contains_key(k1) && #[trigger] self.index@.contains_key(k2) && k1 != k2
                ==> self.index@[k1] != self.index@[k2]
    }

    /// The window of each symbol, oldest close first.
    pub closed spec fn view(&self) -> Map<Seq<char>, Seq<T>> {
        Map::new(
            |k: Seq<char>| self.index@.contains_key(k),
            |k: Seq<char>| self.windows@[self.index@[k] as int]@,
        )
    }

    /// A book with no symbol.
    pub fn new() -> (b: Self)
        ensures
            b.wf(),
            b.view() == Map::<Seq<char>, Seq<T>>::empty(),
    {
        let b = CloseBook { index: StringHashMap::new(), windows: Vec::new() };
        assert(b.view() =~= Map::<Seq<char>, Seq<T>>::empty());
        b
    }

    /// The window of `symbol`, if the book has one.
    pub fn get(&self, symbol: &str) -> (r: Option<&VecDeque<T>>)
        requires
            self.wf(),
        ensures
            r matches Some(w) ==> self.view().contains_key(symbol@) && w@ == self.view()[symbol@],
            r is None ==> !self.view().contains_key(symbol@),
    {
        match self.index.get(symbol) {
            Some(i) => Some(&self.windows[*i]),
            None => None,
        }
    }

    /// Finds the slot of `symbol`, giving it a new empty window when it has
    /// none.
    fn slot(&mut self, symbol: &String) -> (i: usize)
        requires
            old(self).wf(),
        ensures
            final(self).wf(),
            i < final(self).windows@.len(),
            final(self).index@.contains_key(symbol@),
            final(self).index@[symbol@] == i,
            final(self).view() == (if old(self).view().contains_key(symbol@) {
                old(self).view()
            } else {
                old(self).view().insert(symbol@, Seq::empty())
            }),
    {
        match self.index.get(symbol.as_str()) {
            Some(i) => *i,
            None => {
                let ghost old_view = self.view();
                let i = self.windows.len();
                self.windows.push(VecDeque::new());
                self.index.insert(symbol.clone(), i);
                assert(self.view() =~= old_view.insert(symbol@, Seq::empty()));
                i
            },
        }
    }

    /// Replacing the window in the slot of `symbol` changes the window of
    /// that symbol only.
    proof fn lemma_slot_update(before: Self, after: Self, symbol: Seq<char>, i: int)
        requires
            before.wf(),
            after.index@ == before.index@,
            before.index@.contains_key(symbol),
            before.index@[symbol] == i,
            after.windows@.len() == before.windows@.len(),
            forall|j: int| 0 <= j < before.windows@.len() && j != i ==> after.windows@[j] == before.windows@[j],
        ensures
            after.wf(),
            after.view() == before.view().insert(symbol, after.windows@[i]@),
    {
        let target = before.view().insert(symbol, after.windows@[i]@);
        assert forall|k: Seq<char>| #[trigger] after.view().contains_key(k) implies after.view()[k] == target[k] by {
            if k != symbol {
                assert(after.windows@[after.index@[k] as int] == before.windows@[before.index@[k] as int]);
            }
        }
        assert(after.view() =~= target);
    }

    /// Sets the window of `symbol`.
    pub fn insert(&mut self, symbol: &String, window: VecDeque<T>)
        requires
            old(self).wf(),
        ensures
            final(self).wf(),
            final(self).view() == old(self).view().insert(symbol@, window@),
    {
        let ghost old_view = self.view();
        let i = self.slot(symbol);
        let ghost mid = *self;
        self.windows.set(i, window);
        proof {
            Self::lemma_slot_update(mid, *self, symbol@, i as int);
            assert(self.view() =~= old_view.insert(symbol@, window@));
        }
    }

    /// Pushes `close` into the window of `symbol`, which holds at most `cap`
    /// closes (a symbol without a window starts from an empty one), and
    /// returns how many closes the window now holds.
    pub fn push_close(&mut self, symbol: &String, close: T, cap: usize) -> (n: usize)
        requires
            old(self).wf(),
        ensures
            final(self).wf(),
            final(self).view() == old(self).view().insert(
                symbol@,
                spec_push_bounded(
                    if old(self).view().contains_key(symbol@) { old(self).view()[symbol@] } else { Seq::empty() },
                    cap as nat,
                    close,
                ),
            ),
            n == final(self).view()[symbol@].len(),
    {
        let ghost old_view = self.view();
        let i = self.slot(symbol);
        let ghost mid = *self;
        assert(mid.view()[symbol@] == mid.windows@[i as int]@);
        push_bounded(&mut self.windows[i], cap, close);
        proof {
            Self::lemma_slot_update(mid, *self, symbol@, i as int);
            assert(self.view() =~= old_view.insert(
                symbol@,
                spec_push_bounded(
                    if old_view.contains_key(symbol@) { old_view[symbol@] } else { Seq::empty() },
                    cap as nat,
                    close,
                ),
            ));
        }
        self.windows[i].len()
    }
}

} // verus!
