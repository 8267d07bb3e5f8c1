//! A fixed-capacity circular buffer that overwrites its oldest element.
//!
//! The buffer keeps a single counter, `tail`, of pushes since the last reset.
//! Push number `p` lives in slot `p % N`; the oldest retained element is push
//! number `tail - len`, so its slot is derived and never stored.
use vstd::arithmetic::div_mod::{
    lemma_add_mod_noop,
    lemma_mod_pos_bound,
    lemma_mod_sub_multiples_vanish,
    lemma_small_mod,
    lemma_sub_mod_noop,
};
use vstd::prelude::*;
use vstd::slice::slice_subrange;

verus! {

/// Number of elements retained by a buffer of capacity `cap` after `pushes`
/// pushes since the last reset.
pub open spec fn retained(pushes: nat, cap: nat) -> nat {
    if pushes > cap {
        cap
    } else {
        pushes
    }
}

/// The last `k` elements of `s` (all of `s` when it is no longer than `k`).
pub open spec fn keep_last<T>(s: Seq<T>, k: nat) -> Seq<T> {
    if s.len() > k {
        s.subrange(s.len() - k, s.len() as int)
    } else {
        s
    }
}

/// The contents of a buffer of capacity `cap` holding `s` after pushing every
/// element of `vs` in order.
pub open spec fn push_all<T>(s: Seq<T>, vs: Seq<T>, cap: nat) -> Seq<T>
    decreases vs.len(),
{
    if vs.len() == 0 {
        s
    } else {
        keep_last(push_all(s, vs.drop_last(), cap).push(vs.last()), cap)
    }
}

/// Two distinct numbers less than `n` apart land in distinct slots.
proof fn lemma_slots_distinct(a: int, b: int, n: int)
    requires
        0 <= a < b < a + n,
    ensures
        a % n != b % n,
{
    lemma_sub_mod_noop(b, a, n);
    lemma_small_mod((b - a) as nat, n as nat);
    lemma_small_mod(0, n as nat);
}

proof fn lemma_keep_last_push<T>(s: Seq<T>, v: T, k: nat)
    ensures
        keep_last(keep_last(s, k).push(v), k) == keep_last(s.push(v), k),
{
    if s.len() > k {
        assert(keep_last(keep_last(s, k).push(v), k) =~= keep_last(s.push(v), k));
    }
}

/// Pushing a sequence into a buffer keeps the last `cap` elements of the old
/// contents followed by the pushed values.
pub proof fn lemma_push_all<T>(s: Seq<T>, vs: Seq<T>, cap: nat)
    requires
        s.len() <= cap,
    ensures
        push_all(s, vs, cap) == keep_last(s + vs, cap),
    decreases vs.len(),
{
    if vs.len() > 0 {
        let init = vs.drop_last();
        assert(s + vs =~= (s + init).push(vs.last()));
        lemma_push_all(s, init, cap);
        lemma_keep_last_push(s + init, vs.last(), cap);
    } else {
        assert(s + vs =~= s);
    }
}

/// Up to capacity, an empty buffer retains every pushed value, in push order.
pub proof fn lemma_pushes_within_capacity<T>(vs: Seq<T>, cap: nat)
    requires
        vs.len() <= cap,
    ensures
        push_all(Seq::empty(), vs, cap) == vs,
        retained(vs.len(), cap) == vs.len(),
{
    lemma_push_all(Seq::empty(), vs, cap);
    assert(Seq::<T>::empty() + vs =~= vs);
}

/// Beyond capacity, an empty buffer retains exactly the last `cap` pushed
/// values, in push order: each push overwrites the oldest element.
pub proof fn lemma_pushes_beyond_capacity<T>(vs: Seq<T>, cap: nat)
    requires
        vs.len() > cap,
    ensures
        push_all(Seq::empty(), vs, cap) == vs.subrange(vs.len() - cap, vs.len() as int),
        push_all(Seq::empty(), vs, cap).len() == cap,
        retained(vs.len(), cap) == cap,
{
    lemma_push_all(Seq::empty(), vs, cap);
    assert(Seq::<T>::empty() + vs =~= vs);
}

/// A push into a full buffer evicts exactly the single oldest element; below
/// capacity nothing is evicted.
pub proof fn lemma_push_evicts_oldest<T>(s: Seq<T>, v: T, cap: nat)
    requires
        0 < cap,
        s.len() <= cap,
    ensures
        s.len() == cap ==> keep_last(s.push(v), cap) == s.drop_first().push(v),
        s.len() < cap ==> keep_last(s.push(v), cap) == s.push(v),
        keep_last(s.push(v), cap).len() == if s.len() == cap {
            cap
        } else {
            s.len() + 1
        },
{
    if s.len() == cap {
        assert(keep_last(s.push(v), cap) =~= s.drop_first().push(v));
    }
}

/// A push that follows a reset leaves exactly the pushed value.
pub proof fn lemma_push_after_clear<T>(x: T, cap: nat)
    requires
        cap > 0,
    ensures
        keep_last(Seq::<T>::empty().push(x), cap) == seq![x],
        keep_last(Seq::<T>::empty().push(x), cap).last() == x,
{
    assert(Seq::<T>::empty().push(x) =~= seq![x]);
}

/// A circular buffer of capacity `N` that overwrites its oldest element.
#[derive(Clone, Copy)]
pub struct Ring<T: Default + Copy, const N: usize> {
    data: [T; N],
    tail: usize,
}

impl<T: Default + Copy, const N: usize> View for Ring<T, N> {
    type V = Seq<T>;

    /// The retained elements, oldest first.
    closed spec fn view(&self) -> Seq<T> {
        Seq::new(
            self.spec_len(),
            |i: int| self.data@[(self.tail - self.spec_len() + i) % (N as int)],
        )
    }
}

impl<T: Default + Copy, const N: usize> Ring<T, N> {
    /// Pushes since construction or the last reset.
    pub closed spec fn pushes(&self) -> nat {
        self.tail as nat
    }

    /// Number of retained elements.
    pub open spec fn spec_len(&self) -> nat {
        retained(self.pushes(), N as nat)
    }

    /// Constructs an empty ring buffer.
    pub fn new() -> (r: Self)
        ensures
            r@ == Seq::<T>::empty(),
            r.pushes() == 0,
    {
        let r = Ring { data: [T::default();N], tail: 0 };
        assert(r@ =~= Seq::<T>::empty());
        r
    }

    /// Current number of elements.
    pub fn len(&self) -> (r: usize)
        ensures
            r == self@.len(),
            r == retained(self.pushes(), N as nat),
    {
        if self.tail > N {
            N
        } else {
            self.tail
        }
    }

    /// `true` if the buffer is empty.
    pub fn is_empty(&self) -> (r: bool)
        ensures
            r == (self.pushes() == 0),
            N > 0 ==> r == (self@.len() == 0),
    {
        self.tail == 0
    }

    /// Pushes since construction or the last reset.
    pub fn tail(&self) -> (r: usize)
        ensures
            r == self.pushes(),
    {
        self.tail
    }

    /// Sum of two slot numbers, reduced to a slot number.
    fn wrap_add(h: usize, k: usize) -> (r: usize)
        requires
            h < N,
            k < N,
        ensures
            r == (h + k) % (N as int),
    {
        proof {
            if h + k < N {
                lemma_small_mod((h + k) as nat, N as nat);
            } else {
                lemma_mod_sub_multiples_vanish(h + k, N as int);
                lemma_small_mod((h + k - N) as nat, N as nat);
            }
        }
        if k < N - h {
            h + k
        } else {
            k - (N - h)
        }
    }

    /// Slot of the oldest element.
    fn head(&self) -> (r: usize)
        requires
            N > 0,
        ensures
            r == (self.tail - self.spec_len()) % (N as int),
            r < N,
    {
        if self.tail > N {
            proof {
                lemma_mod_pos_bound(self.tail - N, N as int);
            }
            (self.tail - N) % N
        } else {
            proof {
                lemma_small_mod(0, N as nat);
            }
            0
        }
    }

    /// Slot of the element at logical position `logical`.
    fn phys_index(&self, logical: usize) -> (r: usize)
        requires
            N > 0,
            logical < self.spec_len(),
        ensures
            r == (self.tail - self.spec_len() + logical) % (N as int),
            r < N,
    {
        let h = self.head();
        proof {
            lemma_small_mod(logical as nat, N as nat);
            lemma_add_mod_noop(self.tail - self.spec_len(), logical as int, N as int);
            lemma_mod_pos_bound(self.tail - self.spec_len() + logical, N as int);
        }
        Self::wrap_add(h, logical)
    }

    /// Push a value to the newest side, overwriting the oldest element when
    /// the buffer is full.
    pub fn push(&mut self, value: T)
        requires
            N > 0,
            old(self).pushes() < usize::MAX,
        ensures
            final(self)@ == keep_last(old(self)@.push(value), N as nat),
            old(self)@.len() == N ==> final(self)@ == old(self)@.drop_first().push(value),
            old(self)@.len() < N ==> final(self)@ == old(self)@.push(value),
            final(self).pushes() == old(self).pushes() + 1,
    {
        let ghost pre = self@;
        let ghost t = self.tail as int;
        let slot = self.tail % N;
        self.data[slot] = value;
        self.tail = self.tail + 1;
        proof {
            let n = N as int;
            let post = keep_last(pre.push(value), N as nat);
            assert forall|i: int| 0 <= i < self@.len() implies #[trigger] self@[i] == post[i] by {
                let p = t + 1 - self.spec_len() + i;
                lemma_mod_pos_bound(p, n);
                if i < self@.len() - 1 {
                    lemma_slots_distinct(p, t, n);
                } else {
                    assert(p == t);
                }
            }
            assert(self@ =~= post);
            lemma_push_evicts_oldest(pre, value, N as nat);
        }
    }

    /// Resets the buffer to empty.
    pub fn clear(&mut self)
        ensures
            final(self)@ == Seq::<T>::empty(),
            final(self).pushes() == 0,
    {
        self.tail = 0;
        assert(self@ =~= Seq::<T>::empty());
    }

    /// Element at `index`, counted from the oldest (0).
    pub fn get(&self, index: usize) -> (r: Option<&T>)
        ensures
            index >= self@.len() ==> r.is_none(),
            index < self@.len() ==> r == Some(&self@[index as int]),
    {
        if index >= self.len() {
            None
        } else {
            let slot = self.phys_index(index);
            Some(&self.data[slot])
        }
    }

    /// Slot of the oldest element: push number `p` is stored in slot `p % N`,
    /// and the oldest retained element is push number `pushes - len`.
    pub open spec fn oldest_slot(&self) -> int {
        (self.pushes() - self.spec_len()) % (N as int)
    }

    /// `true` when the retained elements run past the last slot and continue
    /// at the first one.
    pub open spec fn wraps(&self) -> bool {
        self.spec_len() > 0 && self.oldest_slot() + self.spec_len() > N
    }

    /// Where logical position `i` is stored, relative to the oldest slot.
    proof fn lemma_slot(&self, i: int)
        requires
            N > 0,
            0 <= i < self.spec_len(),
        ensures
            0 <= self.oldest_slot() < N,
            self.oldest_slot() + i < N ==> (self.tail - self.spec_len() + i) % (N as int)
                == self.oldest_slot() + i,
            self.oldest_slot() + i >= N ==> (self.tail - self.spec_len() + i) % (N as int)
                == self.oldest_slot() + i - N,
    {
        let n = N as int;
        let h = self.oldest_slot();
        lemma_mod_pos_bound(self.tail - self.spec_len(), n);
        lemma_small_mod(i as nat, N as nat);
        lemma_add_mod_noop(self.tail - self.spec_len(), i, n);
        if h + i < n {
            lemma_small_mod((h + i) as nat, N as nat);
        } else {
            lemma_mod_sub_multiples_vanish(h + i, n);
            lemma_small_mod((h + i - n) as nat, N as nat);
        }
    }

    /// Newest element.
    pub fn last(&self) -> (r: Option<&T>)
        ensures
            self@.len() == 0 ==> r.is_none(),
            self@.len() > 0 ==> r == Some(&self@.last()),
    {
        if self.len() == 0 {
            None
        } else {
            self.get(self.len() - 1)
        }
    }

    /// The contents as two slices: older elements first, then newer ones.
    /// The second slice is empty unless the contents wrap past the last slot.
    pub fn as_slices(&self) -> (r: (&[T], &[T]))
        ensures
            r.0@ + r.1@ == self@,
            r.1@.len() > 0 <==> self.wraps(),
            r.0@.len() == (if self.wraps() {
                N - self.oldest_slot()
            } else {
                self@.len() as int
            }),
            self.pushes() <= N ==> !self.wraps() && r.0@ == self@ && r.1@.len() == 0,
    {
        let len = self.len();
        let all = self.data.as_slice();
        if len == 0 {
            let empty = slice_subrange(all, 0, 0);
            assert(empty@ + empty@ =~= self@);
            return (empty, empty);
        }
        let head = self.head();
        proof {
            if self.pushes() <= N {
                lemma_small_mod(0, N as nat);
            }
        }
        if len <= N - head {
            let left = slice_subrange(all, head, head + len);
            let right = slice_subrange(all, 0, 0);
            proof {
                assert forall|i: int| 0 <= i < len implies #[trigger] self@[i] == left@[i] by {
                    self.lemma_slot(i);
                }
                assert(left@ + right@ =~= self@);
                assert(left@ =~= self@);
            }
            (left, right)
        } else {
            let left = slice_subrange(all, head, N);
            let right = slice_subrange(all, 0, len - (N - head));
            proof {
                let both = left@ + right@;
                assert forall|i: int| 0 <= i < len implies #[trigger] self@[i] == both[i] by {
                    self.lemma_slot(i);
                }
                assert(both =~= self@);
            }
            (left, right)
        }
    }

    /// Iterator from oldest to newest.
    pub fn iter(&self) -> (r: RingIter<'_, T>)
        ensures
            r@ == self@,
            r.wf(),
    {
        let (left, right) = self.as_slices();
        assert(self@.len() <= N);
        RingIter { left, right }
    }

    /// The contents, oldest first, collected by walking `iter`.
    pub fn to_vec(&self) -> (r: Vec<T>)
        ensures
            r@ == self@,
    {
        let mut it = self.iter();
        let mut out: Vec<T> = Vec::new();
        loop
            invariant
                it.wf(),
                out@ + it@ == self@,
            decreases it@.len(),
        {
            let ghost before = it@;
            match it.next() {
                Some(x) => {
                    out.push(*x);
                    assert(out@ + it@ =~= self@) by {
                        assert(before =~= seq![*x] + it@);
                    }
                },
                None => {
                    assert(out@ =~= self@);
                    return out;
                },
            }
        }
    }

    /// Keep only the most recent `count` elements, moving the oldest of them
    /// to the first slot.
    pub fn truncate_front(&mut self, count: usize)
        ensures
            final(self)@ == keep_last(old(self)@, count as nat),
            count >= old(self)@.len() ==> final(self)@ == old(self)@,
            count < old(self)@.len() ==> final(self)@.len() == count,
            final(self).pushes() == (if count < old(self)@.len() {
                count as nat
            } else {
                old(self).pushes()
            }),
    {
        if count >= self.len() {
            return;
        }
        let ghost pre = self@;
        let ghost t0 = self.tail as int;
        let ghost d0 = self.data;
        let oldest = (self.tail - count) % N;
        proof {
            lemma_mod_pos_bound(t0 - count, N as int);
        }
        let mut kept: [T; N] = self.data;
        let mut j: usize = 0;
        while j < count
            invariant
                N > 0,
                j <= count,
                count < pre.len(),
                pre == self@,
                self.tail == t0,
                self.data == d0,
                oldest == (t0 - count) % (N as int),
                oldest < N,
                forall|k: int| 0 <= k < j ==> #[trigger] kept@[k] == pre[pre.len() - count + k],
            decreases count - j,
        {
            let slot = Self::wrap_add(oldest, j);
            proof {
                lemma_small_mod(j as nat, N as nat);
                lemma_add_mod_noop(t0 - count, j as int, N as int);
                assert(t0 - self.spec_len() + (pre.len() - count + j) == t0 - count + j);
            }
            kept[j] = self.data[slot];
            j = j + 1;
        }
        self.data = kept;
        self.tail = count;
        proof {
            let post = keep_last(pre, count as nat);
            assert forall|i: int| 0 <= i < count implies #[trigger] self@[i] == post[i] by {
                lemma_small_mod(i as nat, N as nat);
            }
            assert(self@ =~= post);
        }
    }

    /// Push every element of `items`, in order.
    pub fn extend(&mut self, items: &[T])
        requires
            N > 0,
            old(self).pushes() + items@.len() <= usize::MAX,
        ensures
            final(self)@ == push_all(old(self)@, items@, N as nat),
            final(self).pushes() == old(self).pushes() + items@.len(),
    {
        let ghost pre = self@;
        let ghost p0 = self.pushes();
        let mut i: usize = 0;
        while i < items.len()
            invariant
                N > 0,
                i <= items@.len(),
                p0 + items@.len() <= usize::MAX,
                self.pushes() == p0 + i,
                self@ == push_all(pre, items@.subrange(0, i as int), N as nat),
            decreases items@.len() - i,
        {
            assert(items@.subrange(0, i + 1).drop_last() =~= items@.subrange(0, i as int));
            self.push(items[i]);
            i = i + 1;
        }
        assert(items@.subrange(0, i as int) =~= items@);
    }

    /// A buffer holding what pushing every element of `items` into an empty
    /// one leaves.
    pub fn from_slice(items: &[T]) -> (r: Self)
        requires
            N > 0,
        ensures
            r@ == push_all(Seq::<T>::empty(), items@, N as nat),
            r.pushes() == items@.len(),
    {
        let mut r = Self::new();
        assert(items@.len() == items.len());
        r.extend(items);
        r
    }
}

impl<T: Default + Copy, const N: usize> Default for Ring<T, N> {
    fn default() -> (r: Self)
        ensures
            r@ == Seq::<T>::empty(),
            r.pushes() == 0,
    {
        Self::new()
    }
}

/// Iterator over a buffer's elements, oldest first.
pub struct RingIter<'a, T: Default + Copy> {
    left: &'a [T],
    right: &'a [T],
}

impl<'a, T: Default + Copy> View for RingIter<'a, T> {
    type V = Seq<T>;

    /// The elements not yet handed out, in order.
    closed spec fn view(&self) -> Seq<T> {
        self.left@ + self.right@
    }
}

impl<'a, T: Default + Copy> RingIter<'a, T> {
    /// The remaining count fits in a `usize`.
    pub closed spec fn wf(&self) -> bool {
        self.left@.len() + self.right@.len() <= usize::MAX
    }

    /// Hands out the next element, if any.
    pub fn next(&mut self) -> (r: Option<&'a T>)
        requires
            old(self).wf(),
        ensures
            final(self).wf(),
            old(self)@.len() == 0 ==> r.is_none() && final(self)@ == old(self)@,
            old(self)@.len() > 0 ==> r == Some(&old(self)@[0]) && final(self)@ == old(
                self,
            )@.drop_first(),
    {
        let left: &'a [T] = self.left;
        let right: &'a [T] = self.right;
        if left.len() > 0 {
            let first = &left[0];
            self.left = slice_subrange(left, 1, left.len());
            assert(self@ =~= old(self)@.drop_first());
            Some(first)
        } else if right.len() > 0 {
            let first = &right[0];
            self.right = slice_subrange(right, 1, right.len());
            assert(self@ =~= old(self)@.drop_first());
            Some(first)
        } else {
            None
        }
    }

    /// Number of elements left.
    pub fn len(&self) -> (r: usize)
        requires
            self.wf(),
        ensures
            r == self@.len(),
    {
        self.left.len() + self.right.len()
    }

    /// Exact bounds on the number of elements left.
    pub fn size_hint(&self) -> (r: (usize, Option<usize>))
        requires
            self.wf(),
        ensures
            r.0 == self@.len(),
            r.1 == Some(r.0),
    {
        let remaining = self.len();
        (remaining, Some(remaining))
    }
}

} // verus!
