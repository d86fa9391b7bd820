//! The live kline stream: stream names, subscription batches, and the
//! messages the stream delivers.

use vstd::prelude::*;
use vstd::string::StringSliceAdditionalSpecFns;

verus! {

/// Symbols per stream connection.
pub const WS_BATCH_SIZE: usize = 100;

/// A kline update pushed by the stream.
#[derive(Clone, Debug, PartialEq, Eq)]
pub struct WsKlineEvent {
    pub symbol: String,
    pub kline: WsKline,
}

/// The part of a kline update that the tracker reads.
#[derive(Clone, Debug, PartialEq, Eq)]
pub struct WsKline {
    pub is_closed: bool,
    pub close: String,
}

/// The stream's reply to a subscription request.
#[derive(Clone, Debug, PartialEq, Eq)]
pub struct WsSubscriptionAck {
    pub id: Option<u64>,
}

/// What `str::to_lowercase` returns for a string: its lowercase form as
/// Unicode defines it (most characters map on their own; a final sigma maps
/// by its place in the word).
pub uninterp spec fn spec_to_lowercase(s: Seq<char>) -> Seq<char>;

/// Calls `str::to_lowercase`; the result is named, not spelled out.
#[verifier::external_body]
fn to_lowercase(s: &str) -> (r: String)
    ensures
        r@ == spec_to_lowercase(s@),
{
    s.to_lowercase()
}

/// The name of the kline stream of a symbol already in lower case.
pub open spec fn spec_stream_name(lower_symbol: Seq<char>, interval: Seq<char>) -> Seq<char> {
    lower_symbol + "@kline_"@ + interval
}

/// Names the kline stream of `lower_symbol` for candles of `interval`.
pub fn stream_name(lower_symbol: String, interval: &str) -> (r: String)
    ensures
        r@ == spec_stream_name(lower_symbol@, interval@),
{
    lower_symbol.concat("@kline_").concat(interval)
}

/// The stream names to subscribe to for `symbols`, one per symbol, in order.
pub fn kline_stream_names(symbols: &Vec<String>, interval: &str) -> (r: Vec<String>)
    ensures
        r@.len() == symbols@.len(),
        forall|i: int| 0 <= i < r@.len() ==> #[trigger] r@[i]@ == spec_stream_name(spec_to_lowercase(symbols@[i]@), interval@),
{
    let mut r: Vec<String> = Vec::new();
    let mut i: usize = 0;
    while i < symbols.len()
        invariant
            i <= symbols@.len(),
            r@.len() == i,
            forall|j: int| 0 <= j < i ==> #[trigger] r@[j]@ == spec_stream_name(spec_to_lowercase(symbols@[j]@), interval@),
        decreases symbols@.len() - i,
    {
        let lower = to_lowercase(symbols[i].as_str());
        r.push(stream_name(lower, interval));
        i = i + 1;
    }
    r
}

/// The `k`-th batch of `n` items cut into batches of `size`.
pub open spec fn batch_bounds(n: int, size: int, k: int) -> (int, int) {
    (k * size, if (k + 1) * size <= n { (k + 1) * size } else { n })
}

/// Cuts `symbols` into consecutive batches of `size`, the last one possibly
/// shorter, as `chunks` does.
pub fn batch_symbols(symbols: &Vec<String>, size: usize) -> (r: Vec<Vec<String>>)
    requires
        size > 0,
    ensures
        r@.len() == (symbols@.len() + size - 1) / (size as int),
        forall|k: int| 0 <= k < r@.len() ==> #[trigger] r@[k]@ == symbols@.subrange(
            batch_bounds(symbols@.len() as int, size as int, k).0,
            batch_bounds(symbols@.len() as int, size as int, k).1,
        ),
{
    let n = symbols.len();
    let mut r: Vec<Vec<String>> = Vec::new();
    let mut start: usize = 0;
    proof {
        if n > 0 {
            assert(0 < (n + size - 1) / (size as int)) by (nonlinear_arith)
                requires n > 0, size > 0;
        }
        assert(0 == (r@.len() as int) * (size as int));
        if n == 0 {
            assert((n + size - 1) / (size as int) == 0) by (nonlinear_arith)
                requires n == 0, size > 0;
        }
    }
    while start < n
        invariant
            n == symbols@.len(),
            size > 0,
            start <= n,
            start < n ==> start as int == (r@.len() as int) * (size as int),
            start < n ==> r@.len() < (n + size - 1) / (size as int),
            start == n ==> r@.len() == (n + size - 1) / (size as int),
            forall|k: int| 0 <= k < r@.len() ==> #[trigger] r@[k]@ == symbols@.subrange(
                batch_bounds(n as int, size as int, k).0,
                batch_bounds(n as int, size as int, k).1,
            ),
        decreases n - start,
    {
        let end = if n - start > size { start + size } else { n };
        let mut batch: Vec<String> = Vec::new();
        let mut j = start;
        while j < end
            invariant
                start <= j <= end <= n,
                n == symbols@.len(),
                batch@ == symbols@.subrange(start as int, j as int),
            decreases end - j,
        {
            batch.push(symbols[j].clone());
            assert(batch@ =~= symbols@.subrange(start as int, j + 1));
            j = j + 1;
        }
        let ghost k = r@.len() as int;
        assert(batch_bounds(n as int, size as int, k) == (start as int, end as int)) by (nonlinear_arith)
            requires start == k * size, end == (if n - start > size { start + size } else { n as int }), size > 0, start < n;
        r.push(batch);
        proof {
            let m = r@.len() as int;
            if end < n {
                assert(end as int == m * (size as int)) by (nonlinear_arith)
                    requires m == k + 1, start == k * size, end == start + size;
                assert(m < (n + size - 1) / (size as int)) by (nonlinear_arith)
                    requires end == m * size, end < n, size > 0;
            } else {
                assert(m == (n + size - 1) / (size as int)) by (nonlinear_arith)
                    requires start == (m - 1) * size, start < n, end == n, n - start <= size, size > 0;
            }
        }
        start = end;
    }
    r
}

/// Every symbol is subscribed exactly once: the `i`-th of `n` symbols lies
/// in batch `i / size`, at position `i % size`, and in no other batch.
pub proof fn law_each_symbol_in_one_batch(n: int, size: int, i: int, k: int)
    requires
        size > 0,
        0 <= i < n,
        0 <= k,
    ensures
        batch_bounds(n, size, i / size).0 + i % size == i,
        i < batch_bounds(n, size, i / size).1,
        i / size < (n + size - 1) / size,
        (batch_bounds(n, size, k).0 <= i < batch_bounds(n, size, k).1) ==> k == i / size,
{
    assert(i == (i / size) * size + i % size && 0 <= i % size < size) by (nonlinear_arith)
        requires size > 0, i >= 0;
    assert((i / size + 1) * size > i) by (nonlinear_arith)
        requires size > 0, i >= 0, i == (i / size) * size + i % size, i % size < size;
    assert(i / size < (n + size - 1) / size) by (nonlinear_arith)
        requires size > 0, 0 <= i < n, i == (i / size) * size + i % size, 0 <= i % size;
    if batch_bounds(n, size, k).0 <= i < batch_bounds(n, size, k).1 {
        assert(k == i / size) by (nonlinear_arith)
            requires size > 0, k >= 0, k * size <= i, i < (k + 1) * size, i == (i / size) * size + i % size, 0 <= i % size < size;
    }
}

/// Whether the byte string `needle` occurs in `hay`.
pub open spec fn occurs_in(hay: Seq<u8>, needle: Seq<u8>) -> bool {
    exists|i: int| 0 <= i && i + needle.len() <= hay.len() && #[trigger] hay.subrange(i, i + needle.len()) == needle
}

/// Whether the text `needle` occurs in `hay`, as `str::contains` finds it.
pub fn contains_text(hay: &str, needle: &str) -> (r: bool)
    ensures
        r == occurs_in(hay.spec_bytes(), needle.spec_bytes()),
{
    let h = hay.as_bytes();
    let x = needle.as_bytes();
    if x.len() > h.len() {
        return false;
    }
    let hn = h.len();
    let last = hn - x.len();
    let mut i: usize = 0;
    while i <= last
        invariant
            h@ == hay.spec_bytes(),
            x@ == needle.spec_bytes(),
            last == h@.len() - x@.len(),
            x@.len() <= h@.len(),
            hn == h@.len(),
            forall|i2: int| 0 <= i2 < i ==> #[trigger] h@.subrange(i2, i2 + x@.len()) != x@,
        decreases last + 1 - i,
    {
        let mut j: usize = 0;
        while j < x.len() && h[i + j] == x[j]
            invariant
                i <= last,
                last == h@.len() - x@.len(),
                j <= x@.len(),
                x@.len() <= h@.len(),
                i + x@.len() <= h@.len(),
                hn == h@.len(),
                forall|j2: int| 0 <= j2 < j ==> h@[i + j2] == x@[j2],
            decreases x@.len() - j,
        {
            j = j + 1;
        }
        if j == x.len() {
            assert(h@.subrange(i as int, i + x@.len()) =~= x@);
            return true;
        }
        assert(h@.subrange(i as int, i + x@.len())[j as int] != x@[j as int]);
        i = i + 1;
    }
    assert forall|i2: int| 0 <= i2 && i2 + x@.len() <= h@.len() implies #[trigger] h@.subrange(i2, i2 + x@.len()) != x@ by {
        assert(i2 < i);
    }
    false
}

/// A stream text that names a `"result"` field may be the reply to the
/// subscription rather than a kline update.
pub fn may_be_subscription_ack(text: &str) -> (r: bool)
    ensures
        r == occurs_in(text.spec_bytes(), "\"result\"".spec_bytes()),
{
    contains_text(text, "\"result\"")
}

} // verus!
