//! Finding the first run of consecutive qualifying price changes.

use vstd::prelude::*;

verus! {

/// Every change `start .. start + streak_len` qualifies.
pub open spec fn run_qualifies(pair_ok: Seq<bool>, start: int, streak_len: int) -> bool {
    forall|k: int| start <= k < start + streak_len ==> #[trigger] pair_ok[k]
}

/// A window of `streak_len + 1` consecutive values starting at `start` lies
/// within `value_count` values.
pub open spec fn window_fits(value_count: int, start: int, streak_len: int) -> bool {
    0 <= start && start + streak_len + 1 <= value_count
}

/// `start` is where the first qualifying window of `streak_len` changes
/// within `value_count` closes begins.
pub open spec fn is_first_window(pair_ok: Seq<bool>, value_count: int, start: int, streak_len: int) -> bool {
    &&& window_fits(value_count, start, streak_len)
    &&& run_qualifies(pair_ok, start, streak_len)
    &&& forall|j2: int| 0 <= j2 < start ==> !run_qualifies(pair_ok, j2, streak_len)
}

/// Some window of `streak_len` changes within `value_count` closes qualifies.
pub open spec fn has_window(pair_ok: Seq<bool>, value_count: int, streak_len: int) -> bool {
    exists|j: int| window_fits(value_count, j, streak_len) && #[trigger] run_qualifies(pair_ok, j, streak_len)
}

/// Searches `value_count` consecutive closes, of which `pair_ok[i]` tells
/// whether the change from close `i` to close `i + 1` qualifies, for the
/// first window of `streak_len + 1` closes whose `streak_len` changes all
/// qualify, and returns where it starts.
pub fn find_matching_window(pair_ok: &Vec<bool>, value_count: usize, streak_len: usize) -> (r: Option<usize>)
    requires
        value_count == pair_ok@.len() + 1 || (value_count == 0 && pair_ok@.len() == 0),
        streak_len < usize::MAX,
    ensures
        r matches Some(j) ==> is_first_window(pair_ok@, value_count as int, j as int, streak_len as int),
        r is None <==> !has_window(pair_ok@, value_count as int, streak_len as int),
{
    let width = streak_len + 1;
    if value_count < width {
        return None;
    }
    let last_start = value_count - width;
    let mut j: usize = 0;
    while j <= last_start
        invariant
            last_start == value_count - width,
            width == streak_len + 1,
            value_count >= width,
            value_count == pair_ok@.len() + 1,
            forall|j2: int| 0 <= j2 < j ==> !run_qualifies(pair_ok@, j2, streak_len as int),
        decreases last_start + 1 - j,
    {
        let mut k: usize = 0;
        while k < streak_len && pair_ok[j + k]
            invariant
                j <= last_start,
                last_start == value_count - width,
                width == streak_len + 1,
                value_count == pair_ok@.len() + 1,
                k <= streak_len,
                forall|k2: int| j <= k2 < j + k ==> #[trigger] pair_ok@[k2],
            decreases streak_len - k,
        {
            k = k + 1;
        }
        if k == streak_len {
            assert(run_qualifies(pair_ok@, j as int, streak_len as int));
            return Some(j);
        }
        assert(!pair_ok@[j + k]);
        j = j + 1;
    }
    None
}

/// Where some window qualifies, a first one does, no later than it.
pub proof fn lemma_first_window_exists(pair_ok: Seq<bool>, value_count: int, streak_len: int, j: int)
    requires
        window_fits(value_count, j, streak_len),
        run_qualifies(pair_ok, j, streak_len),
    ensures
        exists|j2: int| j2 <= j && #[trigger] is_first_window(pair_ok, value_count, j2, streak_len),
    decreases j,
{
    if forall|j2: int| 0 <= j2 < j ==> !run_qualifies(pair_ok, j2, streak_len) {
        assert(is_first_window(pair_ok, value_count, j, streak_len));
    } else {
        let j2 = choose|j2: int| 0 <= j2 < j && run_qualifies(pair_ok, j2, streak_len);
        lemma_first_window_exists(pair_ok, value_count, streak_len, j2);
        let j3 = choose|j3: int| j3 <= j2 && #[trigger] is_first_window(pair_ok, value_count, j3, streak_len);
        assert(j3 <= j && is_first_window(pair_ok, value_count, j3, streak_len));
    }
}

/// There is only one first window.
pub proof fn law_first_window_unique(pair_ok: Seq<bool>, value_count: int, streak_len: int, j1: int, j2: int)
    requires
        is_first_window(pair_ok, value_count, j1, streak_len),
        is_first_window(pair_ok, value_count, j2, streak_len),
    ensures
        j1 == j2,
{
    if j1 < j2 {
        assert(!run_qualifies(pair_ok, j1, streak_len));
    } else if j2 < j1 {
        assert(!run_qualifies(pair_ok, j2, streak_len));
    }
}

/// A window found stays found when more changes qualify: with at least the
/// same changes qualifying, the search finds a window no later than before.
pub proof fn law_more_qualifying_keeps_window(
    pair_ok1: Seq<bool>,
    pair_ok2: Seq<bool>,
    value_count: int,
    streak_len: int,
    j: int,
)
    requires
        pair_ok1.len() == pair_ok2.len(),
        value_count == pair_ok1.len() + 1 || (value_count == 0 && pair_ok1.len() == 0),
        forall|k: int| 0 <= k < pair_ok1.len() && #[trigger] pair_ok1[k] ==> pair_ok2[k],
        is_first_window(pair_ok1, value_count, j, streak_len),
    ensures
        has_window(pair_ok2, value_count, streak_len),
        exists|j2: int| j2 <= j && #[trigger] is_first_window(pair_ok2, value_count, j2, streak_len),
{
    assert forall|k: int| j <= k < j + streak_len implies #[trigger] pair_ok2[k] by {
        assert(pair_ok1[k]);
    }
    assert(run_qualifies(pair_ok2, j, streak_len));
    lemma_first_window_exists(pair_ok2, value_count, streak_len, j);
}

/// A window found stays the one found when closes are appended: the first
/// window among some closes is the first window among those closes
/// followed by more.
pub proof fn law_appending_keeps_window(
    pair_ok1: Seq<bool>,
    pair_ok2: Seq<bool>,
    streak_len: int,
    j: int,
)
    requires
        pair_ok1.len() <= pair_ok2.len(),
        forall|k: int| 0 <= k < pair_ok1.len() ==> #[trigger] pair_ok2[k] == pair_ok1[k],
        is_first_window(pair_ok1, pair_ok1.len() as int + 1, j, streak_len),
    ensures
        is_first_window(pair_ok2, pair_ok2.len() as int + 1, j, streak_len),
{
    assert forall|k: int| j <= k < j + streak_len implies #[trigger] pair_ok2[k] by {
        assert(pair_ok1[k]);
    }
    assert forall|j2: int| 0 <= j2 < j implies !run_qualifies(pair_ok2, j2, streak_len) by {
        assert(!run_qualifies(pair_ok1, j2, streak_len));
        let k = choose|k: int| j2 <= k < j2 + streak_len && !#[trigger] pair_ok1[k];
        assert(!pair_ok2[k]);
    }
}

} // verus!
