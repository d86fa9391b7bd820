//! Edge-triggered alerts: a symbol is alerted when its price run starts to
//! match, not again while it keeps matching, and again after it stopped.

use vstd::prelude::*;
use vstd::hash_map::StringHashMap;

verus! {

/// Whether the last evaluation of each symbol matched.
pub struct AlertBook {
    active: StringHashMap<bool>,
}

impl View for AlertBook {
    type V = Map<Seq<char>, bool>;

    closed spec fn view(&self) -> Map<Seq<char>, bool> {
        self.active@
    }
}

/// A symbol counts as active when its last evaluation matched; a symbol
/// never evaluated is not active.
pub open spec fn is_active(book: Map<Seq<char>, bool>, symbol: Seq<char>) -> bool {
    book.contains_key(symbol) && book[symbol]
}

/// An alert is owed when a symbol matches and was not active.
pub open spec fn alert_due(book: Map<Seq<char>, bool>, symbol: Seq<char>, matched: bool) -> bool {
    matched && !is_active(book, symbol)
}

/// The views of the symbols in `symbols`.
pub open spec fn symbol_set(symbols: Seq<String>) -> Set<Seq<char>> {
    Set::new(|k: Seq<char>| exists|i: int| 0 <= i < symbols.len() && #[trigger] symbols[i]@ == k)
}

impl AlertBook {
    /// A book in which no symbol is active.
    pub fn new() -> (b: Self)
        ensures
            b@ == Map::<Seq<char>, bool>::empty(),
    {
        AlertBook { active: StringHashMap::new() }
    }

    /// Whether `symbol` matched at its last evaluation.
    pub fn was_active(&self, symbol: &str) -> (r: bool)
        ensures
            r == is_active(self@, symbol@),
    {
        match self.active.get(symbol) {
            Some(v) => *v,
            None => false,
        }
    }

    /// Records the outcome of evaluating `symbol` and tells whether an alert
    /// is due: it is when the symbol matches now and did not before.
    pub fn record(&mut self, symbol: &String, matched: bool) -> (alert: bool)
        ensures
            alert == alert_due(old(self)@, symbol@, matched),
            final(self)@ == old(self)@.insert(symbol@, matched),
    {
        let was = self.was_active(symbol.as_str());
        self.active.insert(symbol.clone(), matched);
        matched && !was
    }

    /// Forgets every symbol that is not among `symbols`.
    pub fn retain_listed(&mut self, symbols: &Vec<String>)
        ensures
            final(self)@ == old(self)@.restrict(symbol_set(symbols@)),
    {
        let mut kept: StringHashMap<bool> = StringHashMap::new();
        let mut i: usize = 0;
        while i < symbols.len()
            invariant
                i <= symbols@.len(),
                kept@ == self@.restrict(symbol_set(symbols@.take(i as int))),
            decreases symbols@.len() - i,
        {
            let s = &symbols[i];
            match self.active.get(s.as_str()) {
                Some(v) => {
                    kept.insert(s.clone(), *v);
                },
                None => {},
            }
            proof {
                let before = symbol_set(symbols@.take(i as int));
                let after = symbol_set(symbols@.take(i + 1));
                assert forall|k: Seq<char>| after.contains(k) <==> before.contains(k) || k == s@ by {
                    if after.contains(k) {
                        let j = choose|j: int| 0 <= j < symbols@.take(i + 1).len() && #[trigger] symbols@.take(i + 1)[j]@ == k;
                        if j < i {
                            assert(symbols@.take(i as int)[j]@ == k);
                        }
                    }
                    if before.contains(k) {
                        let j = choose|j: int| 0 <= j < symbols@.take(i as int).len() && #[trigger] symbols@.take(i as int)[j]@ == k;
                        assert(symbols@.take(i + 1)[j]@ == k);
                    }
                    if k == s@ {
                        assert(symbols@.take(i + 1)[i as int]@ == k);
                    }
                }
                assert(kept@ =~= self@.restrict(after));
            }
            i = i + 1;
        }
        proof {
            assert(symbols@.take(symbols@.len() as int) =~= symbols@);
        }
        self.active = kept;
    }
}

/// A symbol that keeps matching is alerted once: right after an evaluation
/// that matched, a second match owes no alert.
pub proof fn law_repeated_match_alerts_once(book: Map<Seq<char>, bool>, symbol: Seq<char>)
    ensures
        !alert_due(book.insert(symbol, true), symbol, true),
{
}

/// After an evaluation that did not match, the next match is alerted.
pub proof fn law_match_after_miss_alerts(book: Map<Seq<char>, bool>, symbol: Seq<char>)
    ensures
        alert_due(book.insert(symbol, false), symbol, true),
{
}

/// A miss never owes an alert, and the evaluation of one symbol leaves the
/// state of every other symbol as it was.
pub proof fn law_alerts_are_per_symbol(book: Map<Seq<char>, bool>, symbol: Seq<char>, other: Seq<char>, matched: bool)
    requires
        other != symbol,
    ensures
        !alert_due(book, symbol, false),
        is_active(book.insert(symbol, matched), other) == is_active(book, other),
        is_active(book.insert(symbol, matched), symbol) == matched,
{
}

} // verus!
