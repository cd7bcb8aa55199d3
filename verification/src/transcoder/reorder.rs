use vstd::prelude::*;

verus! {

/// Frames that arrive out of order are held back until every earlier frame has been
/// released; frames are released in consecutive order.
pub struct ReorderBuffer<T> {
    stash: Vec<(u32, T)>,
    next_fr: u32,
}

/// Whether the held frames are in ascending frame order.
pub open spec fn frames_ascending<T>(s: Seq<(u32, T)>) -> bool {
    forall|i: int, j: int| 0 <= i < j < s.len() ==> (#[trigger] s[i]).0 <= (#[trigger] s[j]).0
}

/// `x` placed into `s` after every entry whose frame is no greater than its own.
pub open spec fn insert_frame<T>(s: Seq<(u32, T)>, x: (u32, T)) -> Seq<(u32, T)>
    decreases s.len(),
{
    if s.len() == 0 {
        seq![x]
    } else if s.last().0 <= x.0 {
        s.push(x)
    } else {
        insert_frame(s.drop_last(), x).push(s.last())
    }
}

/// How many entries at the front of `s` carry the consecutive frames `n`, `n + 1`, ...
pub open spec fn run_len<T>(s: Seq<(u32, T)>, n: int) -> nat
    decreases s.len(),
{
    if s.len() > 0 && s[0].0 == n {
        1 + run_len(s.drop_first(), n + 1)
    } else {
        0
    }
}

impl<T> ReorderBuffer<T> {
    /// The frames held back, in ascending frame order.
    pub closed spec fn held(&self) -> Seq<(u32, T)> {
        self.stash@
    }

    /// The frame to be released next.
    pub closed spec fn next_frame(&self) -> u32 {
        self.next_fr
    }

    /// An empty buffer that releases frame 0 first.
    pub fn new() -> (r: Self)
        ensures
            r.held() == Seq::<(u32, T)>::empty(),
            r.next_frame() == 0,
    {
        ReorderBuffer { stash: Vec::new(), next_fr: 0 }
    }

    /// The frame to be released next.
    pub fn next(&self) -> (r: u32)
        ensures
            r == self.next_frame(),
    {
        self.next_fr
    }

    /// How many frames are held back.
    pub fn num_held(&self) -> (r: usize)
        ensures
            r == self.held().len(),
    {
        self.stash.len()
    }

    /// Takes frame `fr`. When it is the next frame, it is released together with the held
    /// frames that follow it without a gap; otherwise it is held back.
    pub fn accept(&mut self, fr: u32, item: T) -> (ready: Vec<(u32, T)>)
        requires
            frames_ascending(old(self).held()),
            fr < u32::MAX,
            forall|i: int| 0 <= i < old(self).held().len() ==> (#[trigger] old(self).held()[i]).0 < u32::MAX,
        ensures
            frames_ascending(final(self).held()),
            forall|i: int| 0 <= i < final(self).held().len() ==> (#[trigger] final(self).held()[i]).0 < u32::MAX,
            fr != old(self).next_frame() ==> {
                &&& ready@.len() == 0
                &&& final(self).held() == insert_frame(old(self).held(), (fr, item))
                &&& final(self).next_frame() == old(self).next_frame()
            },
            fr == old(self).next_frame() ==> {
                let k = run_len(old(self).held(), fr + 1);
                &&& ready@ == seq![(fr, item)] + old(self).held().subrange(0, k as int)
                &&& final(self).held() == old(self).held().subrange(k as int, old(self).held().len() as int)
                &&& final(self).next_frame() == fr + 1 + k
            },
            forall|i: int| 0 <= i < ready@.len() ==> (#[trigger] ready@[i]).0 == old(self).next_frame() + i,
            final(self).next_frame() == old(self).next_frame() + ready@.len(),
    {
        let ghost s0 = self.stash@;
        let mut ready: Vec<(u32, T)> = Vec::new();
        if fr != self.next_fr {
            insert_by_frame(&mut self.stash, fr, item);
            return ready;
        }
        ready.push((fr, item));
        let n = self.stash.len();
        let mut k: usize = 0;
        let mut expect: u32 = fr + 1;
        assert(s0.subrange(0, n as int) =~= s0);
        while k < n && self.stash[k].0 == expect
            invariant
                n == s0.len(),
                self.stash@ == s0,
                0 <= k <= n,
                expect == fr + 1 + k,
                forall|i: int| 0 <= i < s0.len() ==> (#[trigger] s0[i]).0 < u32::MAX,
                run_len(s0, fr + 1) == k + run_len(s0.subrange(k as int, n as int), fr + 1 + k),
            decreases n - k,
        {
            proof {
                let tail = s0.subrange(k as int, n as int);
                assert(tail[0] == s0[k as int]);
                assert(tail.drop_first() =~= s0.subrange(k + 1, n as int));
            }
            k = k + 1;
            expect = expect + 1;
        }
        proof {
            let tail = s0.subrange(k as int, n as int);
            if k < n {
                assert(tail[0] == s0[k as int]);
            }
            assert(run_len(tail, fr + 1 + k) == 0);
        }
        let rest = self.stash.split_off(k);
        ready.append(&mut self.stash);
        self.stash = rest;
        self.next_fr = expect;
        proof {
            assert(ready@ =~= seq![(fr, item)] + s0.subrange(0, k as int));
            let t = self.stash@;
            assert forall|i: int, j: int| 0 <= i < j < t.len() implies (#[trigger] t[i]).0 <= (#[trigger] t[j]).0 by {
                assert(t[i] == s0[k + i]);
                assert(t[j] == s0[k + j]);
            }
            assert forall|i: int| 0 <= i < ready@.len() implies (#[trigger] ready@[i]).0 == fr + i by {
                if i > 0 {
                    lemma_run_frames(s0, fr + 1, i - 1);
                    assert(ready@[i] == s0[i - 1]);
                }
            }
        }
        ready
    }
}

/// The entries of a run carry consecutive frames.
pub proof fn lemma_run_frames<T>(s: Seq<(u32, T)>, n: int, i: int)
    requires
        0 <= i < run_len(s, n),
    ensures
        s[i].0 == n + i,
    decreases s.len(),
{
    lemma_run_len_bound(s, n);
    assert(s.len() > 0 && s[0].0 == n);
    if i > 0 {
        lemma_run_frames(s.drop_first(), n + 1, i - 1);
        assert(s.drop_first()[i - 1] == s[i]);
    }
}

/// A run is no longer than the sequence.
pub proof fn lemma_run_len_bound<T>(s: Seq<(u32, T)>, n: int)
    ensures
        run_len(s, n) <= s.len(),
    decreases s.len(),
{
    if s.len() > 0 && s[0].0 == n {
        lemma_run_len_bound(s.drop_first(), n + 1);
    }
}

/// Inserts `(fr, item)` into `stash` after every entry whose frame is no greater.
fn insert_by_frame<T>(stash: &mut Vec<(u32, T)>, fr: u32, item: T)
    requires
        frames_ascending(old(stash)@),
        fr < u32::MAX,
        forall|i: int| 0 <= i < old(stash)@.len() ==> (#[trigger] old(stash)@[i]).0 < u32::MAX,
    ensures
        final(stash)@ == insert_frame(old(stash)@, (fr, item)),
        frames_ascending(final(stash)@),
        forall|i: int| 0 <= i < final(stash)@.len() ==> (#[trigger] final(stash)@[i]).0 < u32::MAX,
{
    let ghost s = stash@;
    let n = stash.len();
    let mut j = n;
    while j > 0 && stash[j - 1].0 > fr
        invariant
            stash@ == s,
            n == s.len(),
            0 <= j <= n,
            forall|m: int| j <= m < n ==> (#[trigger] s[m]).0 > fr,
        decreases j,
    {
        j = j - 1;
    }
    stash.insert(j, (fr, item));
    proof {
        lemma_insert_frame_at(s, (fr, item), j as int);
        assert(stash@ =~= s.subrange(0, j as int).push((fr, item)) + s.subrange(j as int, n as int));
        let t = stash@;
        assert forall|a: int, b: int| 0 <= a < b < t.len() implies (#[trigger] t[a]).0 <= (#[trigger] t[b]).0 by {
            if a < j && b == j {
                if j > 0 {
                    assert(s[a].0 <= s[j - 1].0);
                }
            }
        }
    }
}

/// Inserting into an ascending sequence at the first position whose frame is greater.
proof fn lemma_insert_frame_at<T>(s: Seq<(u32, T)>, x: (u32, T), j: int)
    requires
        0 <= j <= s.len(),
        forall|m: int| j <= m < s.len() ==> (#[trigger] s[m]).0 > x.0,
        j > 0 ==> s[j - 1].0 <= x.0,
    ensures
        insert_frame(s, x) == s.subrange(0, j).push(x) + s.subrange(j, s.len() as int),
    decreases s.len(),
{
    if j == s.len() {
        if s.len() == 0 {
            assert(insert_frame(s, x) =~= seq![x]);
            assert(s.subrange(0, j).push(x) + s.subrange(j, s.len() as int) =~= seq![x]);
        } else {
            assert(s.subrange(0, j) =~= s);
            assert(s.subrange(j, s.len() as int) =~= Seq::<(u32, T)>::empty());
            assert(s.push(x) + Seq::<(u32, T)>::empty() =~= s.push(x));
        }
    } else {
        let t = s.drop_last();
        assert(!(s.last().0 <= x.0));
        lemma_insert_frame_at(t, x, j);
        assert(t.subrange(0, j) =~= s.subrange(0, j));
        assert((t.subrange(0, j).push(x) + t.subrange(j, t.len() as int)).push(s.last())
            =~= s.subrange(0, j).push(x) + s.subrange(j, s.len() as int));
    }
}

/// Holding a frame back loses nothing: the held frames afterwards are those before and the
/// new one.
proof fn lemma_insert_frame_multiset<T>(s: Seq<(u32, T)>, x: (u32, T))
    ensures
        insert_frame(s, x).to_multiset() == s.to_multiset().insert(x),
    decreases s.len(),
{
    broadcast use vstd::seq_lib::group_to_multiset_ensures;

    if s.len() == 0 {
        assert(seq![x] =~= Seq::<(u32, T)>::empty().push(x));
    } else if s.last().0 <= x.0 {
    } else {
        lemma_insert_frame_multiset(s.drop_last(), x);
        assert(s.drop_last().push(s.last()) =~= s);
        assert(s.to_multiset() == s.drop_last().to_multiset().insert(s.last()));
    }
}

/// Taking a frame loses nothing and makes nothing up: the frames released together with
/// the frames held afterwards are the frames held before together with the one taken.
pub proof fn lemma_accept_conserves<T>(held: Seq<(u32, T)>, fr: u32, item: T, next: u32)
    ensures
        fr != next ==> insert_frame(held, (fr, item)).to_multiset() == held.to_multiset().insert(
            (fr, item),
        ),
        fr == next ==> ({
            let k = run_len(held, fr + 1);
            (seq![(fr, item)] + held.subrange(0, k as int)).to_multiset().add(
                held.subrange(k as int, held.len() as int).to_multiset(),
            ) == held.to_multiset().insert((fr, item))
        }),
{
    broadcast use vstd::seq_lib::group_to_multiset_ensures;

    lemma_insert_frame_multiset(held, (fr, item));
    let k = run_len(held, fr + 1);
    lemma_run_len_bound(held, fr + 1);
    let a = seq![(fr, item)] + held.subrange(0, k as int);
    let b = held.subrange(k as int, held.len() as int);
    vstd::seq_lib::lemma_multiset_commutative(a, b);
    assert(a + b =~= seq![(fr, item)] + held);
    vstd::seq_lib::lemma_multiset_commutative(seq![(fr, item)], held);
    vstd::seq_lib::lemma_multiset_commutative(held, seq![(fr, item)]);
    assert(held + seq![(fr, item)] =~= held.push((fr, item)));
    vstd::seq_lib::lemma_seq_union_to_multiset_commutative(seq![(fr, item)], held);
}

/// Whether the frames of `s` rise strictly and all come after frame `n`.
pub open spec fn strictly_after<T>(s: Seq<(u32, T)>, n: int) -> bool {
    &&& forall|i: int, j: int| 0 <= i < j < s.len() ==> (#[trigger] s[i]).0 < (#[trigger] s[j]).0
    &&& forall|i: int| 0 <= i < s.len() ==> (#[trigger] s[i]).0 > n
}

/// Holding back a new frame that comes after frame `n` and is not held yet keeps the held
/// frames rising strictly after `n`, and below any bound above them all.
pub proof fn lemma_insert_strictly_after<T>(s: Seq<(u32, T)>, x: (u32, T), n: int, b: int)
    requires
        strictly_after(s, n),
        x.0 > n,
        x.0 < b,
        forall|i: int| 0 <= i < s.len() ==> (#[trigger] s[i]).0 != x.0 && s[i].0 < b,
    ensures
        strictly_after(insert_frame(s, x), n),
        forall|i: int| 0 <= i < insert_frame(s, x).len() ==> (#[trigger] insert_frame(s, x)[i]).0 < b,
        insert_frame(s, x).len() == s.len() + 1,
    decreases s.len(),
{
    if s.len() == 0 {
    } else if s.last().0 <= x.0 {
        let r = s.push(x);
        assert forall|i: int, j: int| 0 <= i < j < r.len() implies (#[trigger] r[i]).0 < (#[trigger] r[j]).0 by {
            if j == s.len() {
                assert(s[i].0 <= s.last().0);
                assert(s[i].0 != x.0);
            }
        }
    } else {
        let p = s.drop_last();
        lemma_insert_strictly_after(p, x, n, s.last().0 as int);
        let q = insert_frame(p, x);
        let r = q.push(s.last());
        assert(insert_frame(s, x) == r);
        assert forall|i: int, j: int| 0 <= i < j < r.len() implies (#[trigger] r[i]).0 < (#[trigger] r[j]).0 by {
            if j == q.len() {
                assert(r[i] == q[i]);
            } else {
                assert(r[i] == q[i] && r[j] == q[j]);
            }
        }
        assert forall|i: int| 0 <= i < r.len() implies (#[trigger] r[i]).0 > n && r[i].0 < b by {
            if i < q.len() {
                assert(r[i] == q[i]);
            }
        }
    }
}

/// Releasing the next frame and the run of held frames that follow it, when the held
/// frames rise strictly after it, leaves held frames that all come after the new next frame.
pub proof fn lemma_release_strictly_after<T>(held: Seq<(u32, T)>, fr: int)
    requires
        strictly_after(held, fr),
    ensures
        ({
            let k = run_len(held, fr + 1);
            &&& k <= held.len()
            &&& strictly_after(held.subrange(k as int, held.len() as int), fr + 1 + k)
        }),
{
    let k = run_len(held, fr + 1);
    lemma_run_len_bound(held, fr + 1);
    let rest = held.subrange(k as int, held.len() as int);
    if k < held.len() {
        assert(run_len(held.subrange(k as int, held.len() as int), fr + 1 + k) == 0) by {
            lemma_run_tail(held, fr + 1, k as int);
        }
        assert(rest[0] == held[k as int]);
        assert(held[k as int].0 != fr + 1 + k);
        if k > 0 {
            lemma_run_frames(held, fr + 1, k - 1);
            assert(held[k - 1].0 < held[k as int].0);
        }
        assert(held[k as int].0 > fr + 1 + k);
        assert forall|i: int| 0 <= i < rest.len() implies (#[trigger] rest[i]).0 > fr + 1 + k by {
            assert(rest[i] == held[k + i]);
            if i > 0 {
                assert(held[k as int].0 < held[k + i].0);
            }
        }
        assert forall|i: int, j: int| 0 <= i < j < rest.len() implies (#[trigger] rest[i]).0 < (#[trigger] rest[j]).0 by {
            assert(rest[i] == held[k + i]);
            assert(rest[j] == held[k + j]);
        }
    }
}

/// Past the first `k` entries of a run, the rest of the sequence starts no longer run.
proof fn lemma_run_tail<T>(s: Seq<(u32, T)>, n: int, k: int)
    requires
        0 <= k <= run_len(s, n),
    ensures
        run_len(s.subrange(k, s.len() as int), n + k) == run_len(s, n) - k,
    decreases k,
{
    lemma_run_len_bound(s, n);
    if k > 0 {
        assert(s.len() > 0 && s[0].0 == n);
        lemma_run_tail(s.drop_first(), n + 1, k - 1);
        assert(s.drop_first().subrange(k - 1, s.drop_first().len() as int) =~= s.subrange(k, s.len() as int));
    } else {
        assert(s.subrange(0, s.len() as int) =~= s);
    }
}

} // verus!
