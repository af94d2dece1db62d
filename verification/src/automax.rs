use std::collections::VecDeque;
use vstd::hash_map::StringHashMap;
use vstd::prelude::*;

verus! {

/// How many of the latest values of a device the maximum looks back on.
pub const WINDOW_LEN: usize = 10;

/// The window of a device after `value` is recorded: `value` goes to the
/// back and, once more than `WINDOW_LEN` values are held, the oldest leaves.
pub open spec fn slide(window: Seq<u64>, value: u64) -> Seq<u64> {
    let w = window.push(value);
    if w.len() > WINDOW_LEN {
        w.drop_first()
    } else {
        w
    }
}

/// The largest of `floor` and the values in `s`.
pub open spec fn peak(s: Seq<u64>, floor: u64) -> u64
    decreases s.len(),
{
    if s.len() == 0 {
        floor
    } else {
        let m = peak(s.drop_last(), floor);
        if s.last() > m {
            s.last()
        } else {
            m
        }
    }
}

/// A per-device sliding-window maximum that never falls below a floor.
pub struct AutoMax {
    inner: StringHashMap<VecDeque<u64>>,
    floor: u64,
}

impl AutoMax {
    /// The window of the latest values of each device seen so far.
    pub closed spec fn windows(&self) -> Map<Seq<char>, Seq<u64>> {
        self.inner@.map_values(|q: VecDeque<u64>| q@)
    }

    /// The least value `update` returns.
    pub closed spec fn floor(&self) -> u64 {
        self.floor
    }

    /// The window of `dev`; empty for a device not seen yet.
    pub open spec fn window(&self, dev: Seq<char>) -> Seq<u64> {
        if self.windows().contains_key(dev) {
            self.windows()[dev]
        } else {
            Seq::empty()
        }
    }

    /// Every window holds at most `WINDOW_LEN` values.
    pub open spec fn windows_bounded(&self) -> bool {
        forall|dev: Seq<char>| #[trigger]
            self.windows().contains_key(dev) ==> self.windows()[dev].len() <= WINDOW_LEN
    }

    #[verifier::type_invariant]
    closed spec fn windows_fit(&self) -> bool {
        forall|dev: Seq<char>| #[trigger]
            self.inner@.contains_key(dev) ==> self.inner@[dev]@.len() <= WINDOW_LEN
    }

    /// Every window holds at most `WINDOW_LEN` values, whatever the maximum.
    pub fn windows_are_bounded(&self)
        ensures
            self.windows_bounded(),
    {
        proof {
            use_type_invariant(self);
        }
        assert forall|dev: Seq<char>| #[trigger]
            self.windows().contains_key(dev) implies self.windows()[dev].len() <= WINDOW_LEN by {
            assert(self.inner@.contains_key(dev));
        }
    }

    /// A maximum that has seen no value yet.
    pub fn new(floor: u64) -> (a: AutoMax)
        ensures
            a.windows() == Map::<Seq<char>, Seq<u64>>::empty(),
            a.floor() == floor,
            a.windows_bounded(),
    {
        let a = AutoMax { inner: StringHashMap::new(), floor };
        assert(a.windows() =~= Map::<Seq<char>, Seq<u64>>::empty());
        a
    }

    /// Records `value` for `dev` and returns the largest of the floor and
    /// the values in the window of `dev`.
    pub fn update(&mut self, dev: &str, value: u64) -> (r: u64)
        ensures
            final(self).floor() == old(self).floor(),
            final(self).windows() == old(self).windows().insert(
                dev@,
                slide(old(self).window(dev@), value),
            ),
            r == peak(slide(old(self).window(dev@), value), old(self).floor()),
            old(self).windows_bounded(),
            final(self).windows_bounded(),
    {
        proof {
            use_type_invariant(&*self);
        }
        self.windows_are_bounded();
        let mut queue: VecDeque<u64> = match self.inner.get(dev) {
            Some(q) => {
                let c = q.clone();
                assert(c@ =~= q@);
                c
            },
            None => VecDeque::new(),
        };
        assert(queue@ == old(self).window(dev@));
        queue.push_back(value);
        if queue.len() > WINDOW_LEN {
            queue.pop_front();
        }
        assert(queue@ =~= slide(old(self).window(dev@), value));
        let mut m: u64 = self.floor;
        let mut i: usize = 0;
        while i < queue.len()
            invariant
                i <= queue@.len(),
                m == peak(queue@.take(i as int), self.floor),
            decreases queue@.len() - i,
        {
            assert(queue@.take(i + 1).drop_last() =~= queue@.take(i as int));
            if queue[i] > m {
                m = queue[i];
            }
            i = i + 1;
        }
        assert(queue@.take(queue@.len() as int) =~= queue@);
        assert(queue@.len() <= WINDOW_LEN);
        let mut inner = StringHashMap::new();
        std::mem::swap(&mut inner, &mut self.inner);
        inner.insert(dev.to_owned(), queue);
        self.inner = inner;
        assert(self.windows() =~= old(self).windows().insert(dev@, slide(old(self).window(dev@), value)));
        m
    }
}

/// The window after recording each of `values` in turn.
pub open spec fn slide_all(window: Seq<u64>, values: Seq<u64>) -> Seq<u64>
    decreases values.len(),
{
    if values.len() == 0 {
        window
    } else {
        slide(slide_all(window, values.drop_last()), values.last())
    }
}

/// The last `WINDOW_LEN` values of `s`, or all of them when there are fewer.
pub open spec fn last_values(s: Seq<u64>) -> Seq<u64> {
    if s.len() > WINDOW_LEN {
        s.subrange(s.len() - WINDOW_LEN, s.len() as int)
    } else {
        s
    }
}

/// The maximum is the largest of the floor and the window: it is at least
/// the floor and every value of the window, and it is the floor or one of
/// those values.
pub proof fn law_peak_is_maximum(s: Seq<u64>, floor: u64)
    ensures
        peak(s, floor) >= floor,
        forall|i: int| 0 <= i < s.len() ==> peak(s, floor) >= #[trigger] s[i],
        peak(s, floor) == floor || s.contains(peak(s, floor)),
    decreases s.len(),
{
    if s.len() > 0 {
        law_peak_is_maximum(s.drop_last(), floor);
        let m = peak(s.drop_last(), floor);
        assert forall|i: int| 0 <= i < s.len() implies peak(s, floor) >= #[trigger] s[i] by {
            if i < s.len() - 1 {
                assert(s[i] == s.drop_last()[i]);
            }
        }
        if peak(s, floor) != floor {
            if s.last() > m {
                assert(s[s.len() - 1] == peak(s, floor));
            } else {
                let j = choose|j: int| 0 <= j < s.drop_last().len() && s.drop_last()[j] == m;
                assert(s[j] == m);
            }
        }
    }
}

/// What `update` returns is at least the value just recorded and at least
/// the floor.
pub proof fn law_update_at_least_value_and_floor(window: Seq<u64>, value: u64, floor: u64)
    ensures
        peak(slide(window, value), floor) >= value,
        peak(slide(window, value), floor) >= floor,
{
    let w = slide(window, value);
    law_peak_is_maximum(w, floor);
    assert(w[w.len() - 1] == value);
}

/// A window of at most `WINDOW_LEN` values, after a run of updates, holds
/// exactly the last `WINDOW_LEN` values of what it held followed by the run.
pub proof fn law_window_holds_latest_values(window: Seq<u64>, values: Seq<u64>)
    requires
        window.len() <= WINDOW_LEN,
    ensures
        slide_all(window, values) == last_values(window + values),
    decreases values.len(),
{
    if values.len() > 0 {
        law_window_holds_latest_values(window, values.drop_last());
        let before = window + values.drop_last();
        assert(window + values =~= before.push(values.last()));
        let prev = last_values(before);
        if before.len() > WINDOW_LEN {
            assert(slide(prev, values.last()) =~= last_values(before.push(values.last())));
        } else {
            assert(slide(prev, values.last()) =~= last_values(before.push(values.last())));
        }
    }
}

/// After `WINDOW_LEN` updates of a device the maximum no longer depends on
/// anything recorded before them: two windows that then receive the same
/// values are equal.
pub proof fn law_window_forgets_older_values(w1: Seq<u64>, w2: Seq<u64>, values: Seq<u64>)
    requires
        w1.len() <= WINDOW_LEN,
        w2.len() <= WINDOW_LEN,
        values.len() >= WINDOW_LEN,
    ensures
        slide_all(w1, values) == slide_all(w2, values),
        slide_all(w1, values) == values.subrange(values.len() - WINDOW_LEN, values.len() as int),
{
    law_window_holds_latest_values(w1, values);
    law_window_holds_latest_values(w2, values);
    assert(last_values(w1 + values) =~= values.subrange(values.len() - WINDOW_LEN, values.len() as int));
    assert(last_values(w2 + values) =~= values.subrange(values.len() - WINDOW_LEN, values.len() as int));
}

/// The last `n` values of `s`, or all of them when there are fewer.
pub open spec fn last_n(s: Seq<u64>, n: nat) -> Seq<u64> {
    if s.len() > n {
        s.subrange(s.len() - n, s.len() as int)
    } else {
        s
    }
}

proof fn lemma_slide_latest(s: Seq<u64>, v: u64)
    ensures
        slide(last_values(s), v) == last_values(s.push(v)),
{
    assert(slide(last_values(s), v) =~= last_values(s.push(v)));
}

proof fn lemma_peak_push(s: Seq<u64>, v: u64, floor: u64)
    ensures
        peak(s.push(v), floor) == (if v > peak(s, floor) {
            v
        } else {
            peak(s, floor)
        }),
{
    assert(s.push(v).drop_last() =~= s);
}

/// Two values recorded in a row for one device (as a network interface
/// records its received, then its transmitted rate): with `history` all the
/// values it ever recorded, these two last, the window afterwards holds the
/// last `WINDOW_LEN` of them, and the larger of the two maxima returned is
/// the largest of the floor and the last `WINDOW_LEN + 1` values.
pub proof fn law_pair_scale_is_peak_of_recent_values(history: Seq<u64>, floor: u64)
    requires
        history.len() >= 2,
    ensures
        ({
            let w0 = last_values(history.drop_last().drop_last());
            let w1 = slide(w0, history[history.len() - 2]);
            let w2 = slide(w1, history.last());
            let m1 = peak(w1, floor);
            let m2 = peak(w2, floor);
            &&& w2 == last_values(history)
            &&& (if m1 >= m2 {
                m1
            } else {
                m2
            }) == peak(last_n(history, (WINDOW_LEN + 1) as nat), floor)
        }),
{
    let h1 = history.drop_last();
    let h0 = h1.drop_last();
    assert(h0.push(history[history.len() - 2]) =~= h1);
    lemma_slide_latest(h0, history[history.len() - 2]);
    assert(h1.push(history.last()) =~= history);
    lemma_slide_latest(h1, history.last());
    let w1 = last_values(h1);
    let w2 = last_values(history);
    let big = last_n(history, (WINDOW_LEN + 1) as nat);
    assert(big =~= w1.push(history.last()));
    lemma_peak_push(w1, history.last(), floor);
    let m1 = peak(w1, floor);
    let m2 = peak(w2, floor);
    law_peak_is_maximum(w2, floor);
    law_peak_is_maximum(big, floor);
    assert(w2[w2.len() - 1] == history.last());
    let off = big.len() - w2.len();
    assert forall|i: int| 0 <= i < w2.len() implies w2[i] == big[i + off] by {}
    if m2 != floor {
        let j = choose|j: int| 0 <= j < w2.len() && w2[j] == m2;
        assert(big[j + off] == m2);
    }
}

} // verus!
