//! The exchange's listing, and the choice of the symbols to watch.

use vstd::prelude::*;
use vstd::relations::{sorted_by, total_ordering};
use vstd::seq_lib::{lemma_sorted_unique, to_multiset_build, to_multiset_contains};
use crate::text::{text_le, text_le_exec, text_eq, lemma_text_le_total_ordering};

verus! {

/// One symbol of the exchange's listing.
#[derive(Clone, Debug, PartialEq, Eq)]
pub struct SymbolInfo {
    pub symbol: String,
    pub status: String,
    pub quote_asset: String,
}

/// The exchange's listing.
#[derive(Clone, Debug, PartialEq, Eq)]
pub struct ExchangeInfo {
    pub symbols: Vec<SymbolInfo>,
}

/// The byte-wise order in which symbols are listed.
pub open spec fn symbol_order() -> spec_fn(Seq<char>, Seq<char>) -> bool {
    |a: Seq<char>, b: Seq<char>| text_le(a, b)
}

/// A symbol is traded against USDT and currently trading.
pub open spec fn is_trading_usdt(info: SymbolInfo) -> bool {
    info.status@ == "TRADING"@ && info.quote_asset@ == "USDT"@
}

/// The names of the symbols of `infos` that trade against USDT and whose
/// flag in `liquid` is set, in listing order.
pub open spec fn chosen_names(infos: Seq<SymbolInfo>, liquid: Seq<bool>) -> Seq<Seq<char>>
    decreases infos.len(),
{
    if infos.len() == 0 {
        Seq::empty()
    } else {
        let rest = chosen_names(infos.drop_last(), liquid);
        let i = infos.len() - 1;
        if is_trading_usdt(infos[i]) && liquid[i] {
            rest.push(infos[i].symbol@)
        } else {
            rest
        }
    }
}

/// The views of a sequence of strings.
pub open spec fn names_of(v: Seq<String>) -> Seq<Seq<char>> {
    v.map_values(|s: String| s@)
}

/// The watched symbols come in byte-wise order, and are exactly the chosen
/// ones, each as often as the listing names it.
pub proof fn law_selection_sorted_and_complete(infos: Seq<SymbolInfo>, liquid: Seq<bool>)
    ensures
        sorted_by(chosen_names(infos, liquid).sort_by(symbol_order()), symbol_order()),
        chosen_names(infos, liquid).sort_by(symbol_order()).to_multiset() == chosen_names(infos, liquid).to_multiset(),
{
    lemma_text_le_total_ordering();
    chosen_names(infos, liquid).lemma_sort_by_ensures(symbol_order());
}

/// The symbols to watch: those of the listing that are trading against
/// USDT and whose flag in `liquid` (one per listed symbol: enough 24h quote
/// volume) is set, sorted by name.
pub fn tradable_symbols(info: &ExchangeInfo, liquid: &Vec<bool>) -> (r: Vec<String>)
    requires
        liquid@.len() == info.symbols@.len(),
    ensures
        names_of(r@) == chosen_names(info.symbols@, liquid@).sort_by(symbol_order()),
        forall|i: int| 0 <= i < r@.len() ==> is_watched_name(info.symbols@, liquid@, #[trigger] r@[i]@),
        forall|j: int| #[trigger] watched_entry(info.symbols@, liquid@, j) ==> names_of(r@).contains(info.symbols@[j].symbol@),
{
    broadcast use vstd::seq_lib::group_to_multiset_ensures;
    proof {
        lemma_text_le_total_ordering();
    }
    let ghost leq = symbol_order();
    let n = info.symbols.len();
    let mut out: Vec<String> = Vec::new();
    let mut i: usize = 0;
    while i < n
        invariant
            n == info.symbols@.len(),
            liquid@.len() == n,
            i <= n,
            leq == symbol_order(),
            total_ordering(leq),
            sorted_by(names_of(out@), leq),
            names_of(out@).to_multiset() == chosen_names(info.symbols@.take(i as int), liquid@).to_multiset(),
        decreases n - i,
    {
        let s = &info.symbols[i];
        proof {
            assert(info.symbols@.take(i + 1).drop_last() =~= info.symbols@.take(i as int));
            assert(info.symbols@.take(i + 1)[i as int] == *s);
        }
        let ghost prev = chosen_names(info.symbols@.take(i as int), liquid@);
        let chosen = text_eq(s.status.as_str(), "TRADING") && text_eq(s.quote_asset.as_str(), "USDT") && liquid[i];
        if chosen {
            let name = s.symbol.clone();
            let mut pos: usize = 0;
            while pos < out.len() && text_le_exec(out[pos].as_str(), name.as_str())
                invariant
                    pos <= out@.len(),
                    forall|j: int| 0 <= j < pos ==> text_le(#[trigger] out@[j]@, name@),
                decreases out@.len() - pos,
            {
                pos = pos + 1;
            }
            let ghost before = names_of(out@);
            let ghost nm = name@;
            out.insert(pos, name);
            proof {
                assert(names_of(out@) =~= before.insert(pos as int, nm));
                vstd::seq_lib::to_multiset_insert(before, pos as int, nm);
                vstd::seq_lib::to_multiset_build(prev, nm);
                assert(nm == s.symbol@);
                if pos < before.len() {
                    assert(!text_le(before[pos as int], nm));
                    assert(!leq(before[pos as int], nm));
                    assert(leq(before[pos as int], nm) || leq(nm, before[pos as int]));
                }
                assert forall|a: int, b: int| 0 <= a < b < names_of(out@).len() implies
                    #[trigger] leq(names_of(out@)[a], names_of(out@)[b]) by {
                    let v = names_of(out@);
                    if b < pos {
                        assert(v[a] == before[a] && v[b] == before[b]);
                    } else if b == pos {
                        assert(v[a] == before[a]);
                        assert(text_le(out@[a]@, nm));
                    } else if a == pos {
                        assert(v[b] == before[b - 1]);
                        if b - 1 > pos {
                            assert(leq(before[pos as int], before[b - 1]));
                        }
                    } else if a < pos {
                        assert(v[a] == before[a] && v[b] == before[b - 1]);
                    } else {
                        assert(v[a] == before[a - 1] && v[b] == before[b - 1]);
                    }
                }
            }
        }
        proof {
            if chosen {
                assert(chosen_names(info.symbols@.take(i + 1), liquid@) == prev.push(s.symbol@));
            } else {
                assert(chosen_names(info.symbols@.take(i + 1), liquid@) == prev);
            }
        }
        i = i + 1;
    }
    proof {
        assert(info.symbols@.take(n as int) =~= info.symbols@);
        let c = chosen_names(info.symbols@, liquid@);
        c.lemma_sort_by_ensures(leq);
        lemma_sorted_unique(names_of(out@), c.sort_by(leq), leq);
        law_selection_is_trading_usdt(info.symbols@, liquid@);
        assert forall|i: int| 0 <= i < out@.len() implies is_watched_name(info.symbols@, liquid@, #[trigger] out@[i]@) by {
            assert(names_of(out@)[i] == out@[i]@);
            assert(selection(info.symbols@, liquid@)[i] == out@[i]@);
        }
        assert forall|j: int| #[trigger] watched_entry(info.symbols@, liquid@, j) implies names_of(out@).contains(info.symbols@[j].symbol@) by {
            assert(selection(info.symbols@, liquid@).contains(info.symbols@[j].symbol@));
        }
    }
    out
}

/// `idx` picks, for each item of `a` in turn, an equal item of `b`, at
/// increasing positions of `b`.
pub open spec fn embeds<A>(a: Seq<A>, b: Seq<A>, idx: Seq<int>) -> bool {
    &&& idx.len() == a.len()
    &&& forall|i: int| 0 <= i < idx.len() ==> 0 <= #[trigger] idx[i] < b.len() && b[idx[i]] == a[i]
    &&& forall|i: int, j: int| 0 <= i < j < idx.len() ==> #[trigger] idx[i] < #[trigger] idx[j]
}

/// `a` is `b` with some items left out, the rest in the same order.
pub open spec fn is_subsequence<A>(a: Seq<A>, b: Seq<A>) -> bool {
    exists|idx: Seq<int>| embeds(a, b, idx)
}

proof fn lemma_chosen_sub_multiset(infos: Seq<SymbolInfo>, liquid1: Seq<bool>, liquid2: Seq<bool>)
    requires
        liquid1.len() == infos.len(),
        liquid2.len() == infos.len(),
        forall|i: int| 0 <= i < infos.len() && #[trigger] liquid2[i] ==> liquid1[i],
    ensures
        chosen_names(infos, liquid2).to_multiset().subset_of(chosen_names(infos, liquid1).to_multiset()),
    decreases infos.len(),
{
    broadcast use vstd::multiset::group_multiset_axioms;
    if infos.len() > 0 {
        let n = (infos.len() - 1) as int;
        let l1 = liquid1.subrange(0, n);
        let l2 = liquid2.subrange(0, n);
        lemma_chosen_prefix(infos, liquid1);
        lemma_chosen_prefix(infos, liquid2);
        lemma_chosen_sub_multiset(infos.drop_last(), l1, l2);
        let c1 = chosen_names(infos.drop_last(), liquid1);
        let c2 = chosen_names(infos.drop_last(), liquid2);
        let name = infos[n].symbol@;
        to_multiset_build(c1, name);
        to_multiset_build(c2, name);
        assert(liquid2[n] ==> liquid1[n]);
    }
}

/// The names chosen from a listing depend on the flags of its own symbols
/// only.
proof fn lemma_chosen_prefix(infos: Seq<SymbolInfo>, liquid: Seq<bool>)
    requires
        infos.len() > 0,
        liquid.len() == infos.len(),
    ensures
        chosen_names(infos.drop_last(), liquid) == chosen_names(infos.drop_last(), liquid.subrange(0, infos.len() - 1)),
{
    lemma_chosen_flags(infos.drop_last(), liquid, liquid.subrange(0, infos.len() - 1));
}

proof fn lemma_chosen_flags(infos: Seq<SymbolInfo>, l1: Seq<bool>, l2: Seq<bool>)
    requires
        forall|i: int| 0 <= i < infos.len() ==> l1[i] == l2[i],
    ensures
        chosen_names(infos, l1) == chosen_names(infos, l2),
    decreases infos.len(),
{
    if infos.len() > 0 {
        lemma_chosen_flags(infos.drop_last(), l1, l2);
    }
}

/// Two sequences sorted by one total order, the first holding no item more
/// often than the second, embed one in the other.
proof fn lemma_sorted_sub_multiset_embeds<A>(a: Seq<A>, b: Seq<A>, leq: spec_fn(A, A) -> bool) -> (idx: Seq<int>)
    requires
        total_ordering(leq),
        sorted_by(a, leq),
        sorted_by(b, leq),
        a.to_multiset().subset_of(b.to_multiset()),
    ensures
        embeds(a, b, idx),
    decreases b.len(),
{
    broadcast use vstd::multiset::group_multiset_axioms;
    if a.len() == 0 {
        Seq::empty()
    } else {
        let x = a.last();
        let ap = a.drop_last();
        assert(a =~= ap.push(x));
        to_multiset_build(ap, x);
        to_multiset_contains(b, x);
        assert(b.to_multiset().count(x) >= a.to_multiset().count(x));
        assert(b.len() > 0);
        let y = b.last();
        let bp = b.drop_last();
        assert(b =~= bp.push(y));
        to_multiset_build(bp, y);
        assert(sorted_by(bp, leq));
        if x == y {
            assert(sorted_by(ap, leq));
            assert forall|v: A| ap.to_multiset().count(v) <= bp.to_multiset().count(v) by {
                assert(a.to_multiset().count(v) <= b.to_multiset().count(v));
            }
            let idx2 = lemma_sorted_sub_multiset_embeds(ap, bp, leq);
            let idx = idx2.push(b.len() - 1);
            assert(embeds(a, b, idx));
            idx
        } else {
            assert(b.contains(x));
            let k = choose|k: int| 0 <= k < b.len() && b[k] == x;
            if k < b.len() - 1 {
                assert(leq(b[k], b[b.len() - 1]));
            }
            assert(leq(x, y));
            assert(a.to_multiset().count(y) == 0) by {
                to_multiset_contains(a, y);
                if a.contains(y) {
                    let i = choose|i: int| 0 <= i < a.len() && a[i] == y;
                    if i < a.len() - 1 {
                        assert(leq(a[i], a[a.len() - 1]));
                    }
                    assert(leq(y, x));
                }
            }
            assert forall|v: A| a.to_multiset().count(v) <= bp.to_multiset().count(v) by {
                assert(a.to_multiset().count(v) <= b.to_multiset().count(v));
            }
            let idx = lemma_sorted_sub_multiset_embeds(a, bp, leq);
            assert(embeds(a, b, idx));
            idx
        }
    }
}

/// Raising the volume bar only drops symbols: when every symbol flagged
/// liquid in `liquid2` is flagged in `liquid1` too, the selection made with
/// `liquid2` is the one made with `liquid1` with some symbols left out.
pub proof fn law_higher_bar_selects_subsequence(infos: Seq<SymbolInfo>, liquid1: Seq<bool>, liquid2: Seq<bool>)
    requires
        liquid1.len() == infos.len(),
        liquid2.len() == infos.len(),
        forall|i: int| 0 <= i < infos.len() && #[trigger] liquid2[i] ==> liquid1[i],
    ensures
        is_subsequence(
            chosen_names(infos, liquid2).sort_by(symbol_order()),
            chosen_names(infos, liquid1).sort_by(symbol_order()),
        ),
{
    let leq = symbol_order();
    lemma_text_le_total_ordering();
    let c1 = chosen_names(infos, liquid1);
    let c2 = chosen_names(infos, liquid2);
    c1.lemma_sort_by_ensures(leq);
    c2.lemma_sort_by_ensures(leq);
    lemma_chosen_sub_multiset(infos, liquid1, liquid2);
    let idx = lemma_sorted_sub_multiset_embeds(c2.sort_by(leq), c1.sort_by(leq), leq);
}

/// The names of the symbols watched with `liquid`, in the order
/// `tradable_symbols` returns them.
pub open spec fn selection(infos: Seq<SymbolInfo>, liquid: Seq<bool>) -> Seq<Seq<char>> {
    chosen_names(infos, liquid).sort_by(symbol_order())
}

/// The listing entry `j` is a symbol traded against USDT, currently
/// trading, and flagged liquid.
pub open spec fn watched_entry(infos: Seq<SymbolInfo>, liquid: Seq<bool>, j: int) -> bool {
    &&& 0 <= j < infos.len()
    &&& infos[j].status@ == "TRADING"@
    &&& infos[j].quote_asset@ == "USDT"@
    &&& liquid[j]
}

/// `x` is the symbol of a listing entry that is a trading USDT pair
/// flagged liquid.
pub open spec fn is_watched_name(infos: Seq<SymbolInfo>, liquid: Seq<bool>, x: Seq<char>) -> bool {
    exists|j: int| #[trigger] watched_entry(infos, liquid, j) && infos[j].symbol@ == x
}

proof fn lemma_chosen_members(infos: Seq<SymbolInfo>, liquid: Seq<bool>, x: Seq<char>)
    requires
        liquid.len() == infos.len(),
    ensures
        chosen_names(infos, liquid).contains(x) <==> exists|j: int| #[trigger] watched_entry(infos, liquid, j) && infos[j].symbol@ == x,
    decreases infos.len(),
{
    if infos.len() > 0 {
        let n = infos.len() - 1;
        let ip = infos.drop_last();
        let lp = liquid.subrange(0, n);
        lemma_chosen_prefix(infos, liquid);
        lemma_chosen_members(ip, lp, x);
        let c = chosen_names(ip, liquid);
        if chosen_names(infos, liquid).contains(x) {
            if is_trading_usdt(infos[n]) && liquid[n] && x == infos[n].symbol@ {
                assert(watched_entry(infos, liquid, n));
            } else {
                if is_trading_usdt(infos[n]) && liquid[n] {
                    let i = choose|i: int| 0 <= i < c.push(infos[n].symbol@).len() && c.push(infos[n].symbol@)[i] == x;
                    assert(c[i] == x);
                }
                assert(c.contains(x));
                let j = choose|j: int| #[trigger] watched_entry(ip, lp, j) && ip[j].symbol@ == x;
                assert(watched_entry(infos, liquid, j));
            }
        }
        if exists|j: int| #[trigger] watched_entry(infos, liquid, j) && infos[j].symbol@ == x {
            let j = choose|j: int| #[trigger] watched_entry(infos, liquid, j) && infos[j].symbol@ == x;
            if j == n {
                assert(is_trading_usdt(infos[n]) && liquid[n]);
                assert(c.push(x)[c.len() as int] == x);
            } else {
                assert(watched_entry(ip, lp, j));
                let i = choose|i: int| 0 <= i < c.len() && c[i] == x;
                if is_trading_usdt(infos[n]) && liquid[n] {
                    assert(c.push(infos[n].symbol@)[i] == x);
                }
            }
        }
    }
}

/// Exactly the trading USDT pairs flagged liquid are watched: every
/// selected name is the symbol of a listing entry whose status is
/// `TRADING`, whose quote asset is `USDT` and whose liquidity flag is set,
/// and the symbol of every such entry is selected.
pub proof fn law_selection_is_trading_usdt(infos: Seq<SymbolInfo>, liquid: Seq<bool>)
    requires
        liquid.len() == infos.len(),
    ensures
        forall|i: int| 0 <= i < selection(infos, liquid).len()
            ==> is_watched_name(infos, liquid, #[trigger] selection(infos, liquid)[i]),
        forall|j: int| #[trigger] watched_entry(infos, liquid, j) ==> selection(infos, liquid).contains(infos[j].symbol@),
{
    lemma_text_le_total_ordering();
    let c = chosen_names(infos, liquid);
    c.lemma_sort_by_ensures(symbol_order());
    let sel = selection(infos, liquid);
    assert forall|i: int| 0 <= i < sel.len() implies is_watched_name(infos, liquid, #[trigger] sel[i]) by {
        let x = sel[i];
        assert(sel.contains(x));
        to_multiset_contains(sel, x);
        to_multiset_contains(c, x);
        assert(c.contains(x));
        lemma_chosen_members(infos, liquid, x);
        let j = choose|j: int| #[trigger] watched_entry(infos, liquid, j) && infos[j].symbol@ == x;
        assert(watched_entry(infos, liquid, j) && infos[j].symbol@ == sel[i]);
    }
    assert forall|j: int| #[trigger] watched_entry(infos, liquid, j) implies sel.contains(infos[j].symbol@) by {
        let x = infos[j].symbol@;
        lemma_chosen_members(infos, liquid, x);
        to_multiset_contains(sel, x);
        to_multiset_contains(c, x);
    }
}

} // verus!
