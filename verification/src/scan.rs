//! Forward scan over a vector with in-place mutation and item removal.

use vstd::prelude::*;

verus! {

/// Forward scan over a vector with mutation and item removal.
///
/// Provides an iterator-like interface over a vector which allows mutation and
/// removal of items. Items are kept in order. The scan takes the vector's
/// contents when it is created (the caller's vector is left empty while the
/// scan runs) and [`close`](VecMutScan::close) hands the surviving items back.
/// Abandoning the scan without calling `close` loses the items but can never
/// corrupt the vector: it is simply left empty.
///
/// This does not implement the iterator trait, as the returned items borrow
/// the scan (it is a streaming iterator). The [`next`](VecMutScan::next)
/// method returns [`VecMutScanItem`] values, which give access to the current
/// element and provide a [`remove`](VecMutScanItem::remove) and
/// [`replace`](VecMutScanItem::replace) method.
///
/// The cursor is the triple `write <= read <= end` of positions in the
/// original sequence: `[0, write)` is the finalized region, `[read, end)` the
/// unvisited region, and `[write, read)` the gap consumed by removals. The
/// buffer keeps no space for the gap, so the finalized region is `buf[..write]`
/// and the unvisited region is `buf[write..]`.
pub struct VecMutScan<'a, T> {
    /// The caller's vector. Emptied while the scan runs; `close` restores it.
    pub dest: &'a mut Vec<T>,
    /// The items: finalized in `[0, write)`, unvisited in `[write, buf.len())`.
    pub buf: Vec<T>,
    /// Number of items finalized so far (kept or replaced).
    pub write: usize,
    /// Position, in the original sequence, of the next unvisited item.
    pub read: usize,
    /// Length of the original sequence.
    pub end: usize,
}

/// Handle for the current element of a [`VecMutScan`].
///
/// Exactly one terminal action consumes the handle: [`keep`](VecMutScanItem::keep),
/// [`remove`](VecMutScanItem::remove) or [`replace`](VecMutScanItem::replace).
/// Dropping the handle without a terminal action leaves the scan unchanged, so
/// the same element is returned again by the next call to `next`.
pub struct VecMutScanItem<'s, 'a, T> {
    /// The scan this handle addresses; exclusively borrowed while the handle lives.
    pub scan: &'s mut VecMutScan<'a, T>,
}

impl<'a, T> VecMutScan<'a, T> {
    /// Cursor positions are ordered and the buffer holds exactly the
    /// finalized items and the unvisited items, with the gap `[write, read)`
    /// taking no space.
    pub open spec fn wf(&self) -> bool {
        &&& self.write <= self.read <= self.end
        &&& self.buf@.len() == self.end - (self.read - self.write)
    }

    /// The finalized region `[0, write)`: items already committed, in final order.
    pub open spec fn finalized(&self) -> Seq<T> {
        self.buf@.subrange(0, self.write as int)
    }

    /// The unvisited region `[read, end)` of the original sequence.
    pub open spec fn pending(&self) -> Seq<T> {
        self.buf@.subrange(self.write as int, self.buf@.len() as int)
    }

    /// What `close` will hand back if no further action is taken.
    pub open spec fn output(&self) -> Seq<T> {
        self.finalized() + self.pending()
    }

    /// Begin a scan over a vector with mutation and item removal.
    ///
    /// The vector is emptied for the duration of the scan; `close` restores it.
    pub fn new(vec: &'a mut Vec<T>) -> (r: VecMutScan<'a, T>)
        ensures
            r.wf(),
            r.finalized() == Seq::<T>::empty(),
            r.pending() == old(vec)@,
            r.write == 0 && r.read == 0 && r.end == old(vec)@.len(),
            r.dest@ == Seq::<T>::empty(),
            *final(vec) == *final(r.dest),
    {
        let mut buf: Vec<T> = Vec::new();
        core::mem::swap(vec, &mut buf);
        let end = buf.len();
        let r = VecMutScan { dest: vec, buf, write: 0, read: 0, end };
        proof {
            assert(r.finalized() =~= Seq::<T>::empty());
            assert(r.pending() =~= old(vec)@);
        }
        r
    }

    /// Advance to the next item of the vector.
    ///
    /// Returns a handle for the next unvisited element, or `None` once every
    /// element has been visited.
    pub fn next<'s>(&'s mut self) -> (r: Option<VecMutScanItem<'s, 'a, T>>)
        requires
            old(self).wf(),
        ensures
            match r {
                Some(item) => {
                    &&& *item.scan == *old(self)
                    &&& *final(item.scan) == *final(self)
                    &&& old(self).pending().len() > 0
                },
                None => {
                    &&& *final(self) == *old(self)
                    &&& old(self).pending().len() == 0
                },
            },
    {
        if self.read != self.end {
            Some(VecMutScanItem { scan: self })
        } else {
            None
        }
    }

    /// Access the whole vector.
    ///
    /// While scanning, the contents are not contiguous: the first slice holds
    /// the already finalized items, the second the unvisited items, starting
    /// with the element the following [`next`](VecMutScan::next) call returns.
    pub fn slices(&self) -> (r: (&[T], &[T]))
        requires
            self.wf(),
        ensures
            r.0@ == self.finalized(),
            r.1@ == self.pending(),
    {
        self.buf.as_slice().split_at(self.write)
    }

    /// Access and mutate the whole vector.
    ///
    /// As [`slices`](VecMutScan::slices), but the two regions are returned as
    /// mutable slices. Writes through them change the items in place; the
    /// cursor does not move.
    pub fn slices_mut(&mut self) -> (r: (&mut [T], &mut [T]))
        requires
            old(self).wf(),
        ensures
            r.0@ == old(self).finalized(),
            r.1@ == old(self).pending(),
            final(self).write == old(self).write,
            final(self).read == old(self).read,
            final(self).end == old(self).end,
            final(self).dest == old(self).dest,
            final(self).buf@ == final(r.0)@ + final(r.1)@,
            (final(r.0)@.len() == old(self).finalized().len() && final(r.1)@.len() == old(
                self,
            ).pending().len()) ==> {
                &&& final(self).wf()
                &&& final(self).finalized() == final(r.0)@
                &&& final(self).pending() == final(r.1)@
            },
    {
        let r = self.buf.as_mut_slice().split_at_mut(self.write);
        proof {
            assert(r.0@ =~= old(self).finalized());
            assert(r.1@ =~= old(self).pending());
        }
        r
    }

    /// End the scan and hand the surviving items back to the caller's vector.
    ///
    /// The result is the finalized prefix followed by the unvisited suffix,
    /// whether the scan ran to exhaustion or was abandoned early.
    pub fn close(self)
        requires
            self.wf(),
        ensures
            final(self.dest)@ == self.output(),
    {
        let VecMutScan { dest, mut buf, write: _, read: _, end: _ } = self;
        core::mem::swap(dest, &mut buf);
        proof {
            assert(final(dest)@ =~= self.output());
        }
    }
}

impl<'s, 'a, T> VecMutScanItem<'s, 'a, T> {
    /// Read the current element.
    pub fn get(&self) -> (r: &T)
        requires
            self.scan.wf(),
            self.scan.pending().len() > 0,
        ensures
            *r == old(self.scan).pending()[0],
    {
        &self.scan.buf[self.scan.write]
    }

    /// Overwrite the current element in place; the cursor does not move.
    pub fn set(&mut self, value: T)
        requires
            old(self).scan.wf(),
            old(self).scan.pending().len() > 0,
        ensures
            final(self).scan.wf(),
            final(self).scan.pending() == old(self).scan.pending().update(0, value),
            final(self).scan.finalized() == old(self).scan.finalized(),
            final(self).scan.write == old(self).scan.write,
            final(self).scan.read == old(self).scan.read,
            final(self).scan.end == old(self).scan.end,
            final(self).scan.dest == old(self).scan.dest,
            *final(old(self).scan) == *final(final(self).scan),
    {
        let w = self.scan.write;
        self.scan.buf[w] = value;
        proof {
            assert(final(self).scan.pending() =~= old(self).scan.pending().update(0, value));
            assert(final(self).scan.finalized() =~= old(self).scan.finalized());
        }
    }

    /// Finalize the current element unchanged and advance the cursor.
    pub fn keep(self)
        requires
            self.scan.wf(),
            self.scan.pending().len() > 0,
        ensures
            final(self.scan).wf(),
            final(self.scan).finalized() == old(self.scan).finalized().push(
                old(self.scan).pending()[0],
            ),
            final(self.scan).pending() == old(self.scan).pending().drop_first(),
            final(self.scan).write == old(self.scan).write + 1,
            final(self.scan).read == old(self.scan).read + 1,
            final(self.scan).end == old(self.scan).end,
            final(self.scan).dest == old(self.scan).dest,
    {
        self.scan.write = self.scan.write + 1;
        self.scan.read = self.scan.read + 1;
        proof {
            assert(final(self.scan).finalized() =~= old(self.scan).finalized().push(
                old(self.scan).pending()[0],
            ));
            assert(final(self.scan).pending() =~= old(self.scan).pending().drop_first());
        }
    }

    /// Remove the current element from the vector and return it.
    ///
    /// The cursor advances past the element; the gap `[write, read)` widens by one.
    pub fn remove(self) -> (r: T)
        requires
            self.scan.wf(),
            self.scan.pending().len() > 0,
        ensures
            final(self.scan).wf(),
            r == old(self.scan).pending()[0],
            final(self.scan).finalized() == old(self.scan).finalized(),
            final(self.scan).pending() == old(self.scan).pending().drop_first(),
            final(self.scan).write == old(self.scan).write,
            final(self.scan).read == old(self.scan).read + 1,
            final(self.scan).end == old(self.scan).end,
            final(self.scan).dest == old(self.scan).dest,
    {
        let w = self.scan.write;
        let r = self.scan.buf.remove(w);
        self.scan.read = self.scan.read + 1;
        proof {
            assert(final(self.scan).finalized() =~= old(self.scan).finalized());
            assert(final(self.scan).pending() =~= old(self.scan).pending().drop_first());
        }
        r
    }

    /// Replace the current element with a new value and return the old value.
    ///
    /// Equivalent to [`set`](VecMutScanItem::set) followed by
    /// [`keep`](VecMutScanItem::keep), except that the old value is returned.
    pub fn replace(self, value: T) -> (r: T)
        requires
            self.scan.wf(),
            self.scan.pending().len() > 0,
        ensures
            final(self.scan).wf(),
            r == old(self.scan).pending()[0],
            final(self.scan).finalized() == old(self.scan).finalized().push(value),
            final(self.scan).pending() == old(self.scan).pending().drop_first(),
            final(self.scan).write == old(self.scan).write + 1,
            final(self.scan).read == old(self.scan).read + 1,
            final(self.scan).end == old(self.scan).end,
            final(self.scan).dest == old(self.scan).dest,
    {
        let ghost v0 = value;
        let w = self.scan.write;
        let mut value = value;
        core::mem::swap(&mut value, &mut self.scan.buf[w]);
        self.scan.write = w + 1;
        self.scan.read = self.scan.read + 1;
        proof {
            assert(final(self.scan).finalized() =~= old(self.scan).finalized().push(v0));
            assert(final(self.scan).pending() =~= old(self.scan).pending().drop_first());
        }
        value
    }

    /// Access the whole vector while this handle is alive.
    ///
    /// The first slice holds the finalized items, the second the unvisited
    /// items, starting with the element this handle addresses.
    pub fn slices(&self) -> (r: (&[T], &[T]))
        requires
            self.scan.wf(),
        ensures
            r.0@ == old(self.scan).finalized(),
            r.1@ == old(self.scan).pending(),
    {
        self.scan.slices()
    }

    /// Access and mutate the whole vector while this handle is alive.
    ///
    /// As [`slices`](VecMutScanItem::slices), but mutable; writes through the
    /// slices change the items in place without moving the cursor.
    pub fn slices_mut(&mut self) -> (r: (&mut [T], &mut [T]))
        requires
            old(self).scan.wf(),
        ensures
            r.0@ == old(self).scan.finalized(),
            r.1@ == old(self).scan.pending(),
            final(self).scan.write == old(self).scan.write,
            final(self).scan.read == old(self).scan.read,
            final(self).scan.end == old(self).scan.end,
            final(self).scan.dest == old(self).scan.dest,
            *final(old(self).scan) == *final(final(self).scan),
            final(self).scan.buf@ == final(r.0)@ + final(r.1)@,
            (final(r.0)@.len() == old(self).scan.finalized().len() && final(r.1)@.len() == old(
                self,
            ).scan.pending().len()) ==> {
                &&& final(self).scan.wf()
                &&& final(self).scan.finalized() == final(r.0)@
                &&& final(self).scan.pending() == final(r.1)@
            },
    {
        self.scan.slices_mut()
    }
}

/// One terminal action for one visited element.
pub enum Decision<T> {
    /// Finalize the element unchanged ([`VecMutScanItem::keep`]).
    Keep,
    /// Drop the element ([`VecMutScanItem::remove`]).
    Remove,
    /// Substitute the given value ([`VecMutScanItem::replace`]).
    Replace(T),
}

/// The store that the unvisited suffix `input` turns into when its elements
/// are visited in order, one decision each while decisions remain, the rest
/// left untouched.
pub open spec fn decide<T>(input: Seq<T>, ds: Seq<Decision<T>>) -> Seq<T>
    decreases ds.len(),
{
    if ds.len() == 0 || input.len() == 0 {
        input
    } else {
        match ds[0] {
            Decision::Keep => seq![input[0]] + decide(input.drop_first(), ds.drop_first()),
            Decision::Remove => decide(input.drop_first(), ds.drop_first()),
            Decision::Replace(v) => seq![v] + decide(input.drop_first(), ds.drop_first()),
        }
    }
}

/// The `(finalized, pending)` state after one terminal action, exactly as the
/// ensures of [`VecMutScanItem::keep`], [`VecMutScanItem::remove`] and
/// [`VecMutScanItem::replace`] state it. A decision on an exhausted scan
/// changes nothing (the protocol never takes one).
pub open spec fn decision_step<T>(fin: Seq<T>, pend: Seq<T>, d: Decision<T>) -> (Seq<T>, Seq<T>) {
    if pend.len() == 0 {
        (fin, pend)
    } else {
        match d {
            Decision::Keep => (fin.push(pend[0]), pend.drop_first()),
            Decision::Remove => (fin, pend.drop_first()),
            Decision::Replace(v) => (fin.push(v), pend.drop_first()),
        }
    }
}

/// The `(finalized, pending)` state after a whole sequence of terminal
/// actions.
pub open spec fn decision_run<T>(fin: Seq<T>, pend: Seq<T>, ds: Seq<Decision<T>>) -> (Seq<T>, Seq<T>)
    decreases ds.len(),
{
    if ds.len() == 0 {
        (fin, pend)
    } else {
        let s = decision_step(fin, pend, ds[0]);
        decision_run(s.0, s.1, ds.drop_first())
    }
}

/// Law: from any scan state, performing any sequence of keep, remove and
/// replace decisions and then closing yields the already finalized items
/// followed by the decided remainder: removed elements are dropped, replaced
/// elements are substituted, the order of the survivors is preserved, and
/// whatever no decision reached stays untouched at the end.
pub proof fn lemma_decision_run_output<T>(fin: Seq<T>, pend: Seq<T>, ds: Seq<Decision<T>>)
    ensures
        decision_run(fin, pend, ds).0 + decision_run(fin, pend, ds).1 == fin + decide(pend, ds),
    decreases ds.len(),
{
    if ds.len() == 0 {
    } else if pend.len() == 0 {
        lemma_decision_run_output(fin, pend, ds.drop_first());
    } else {
        match ds[0] {
            Decision::Keep => {
                lemma_decision_run_output(fin.push(pend[0]), pend.drop_first(), ds.drop_first());
                assert(fin.push(pend[0]) + decide(pend.drop_first(), ds.drop_first()) =~= fin + (
                seq![pend[0]] + decide(pend.drop_first(), ds.drop_first())));
            },
            Decision::Remove => {
                lemma_decision_run_output(fin, pend.drop_first(), ds.drop_first());
            },
            Decision::Replace(v) => {
                lemma_decision_run_output(fin.push(v), pend.drop_first(), ds.drop_first());
                assert(fin.push(v) + decide(pend.drop_first(), ds.drop_first()) =~= fin + (
                seq![v] + decide(pend.drop_first(), ds.drop_first())));
            },
        }
    }
}

/// Law: a scan that keeps every element unchanged reproduces the original
/// sequence exactly.
pub proof fn lemma_keep_all<T>(input: Seq<T>, ds: Seq<Decision<T>>)
    requires
        forall|i: int| 0 <= i < ds.len() ==> ds[i] is Keep,
    ensures
        decide(input, ds) == input,
    decreases ds.len(),
{
    if ds.len() == 0 || input.len() == 0 {
    } else {
        lemma_keep_all(input.drop_first(), ds.drop_first());
        assert(seq![input[0]] + input.drop_first() =~= input);
    }
}

/// Law: deciding only a prefix of the input and then abandoning loses nothing
/// and duplicates nothing: the result is the decided prefix followed by the
/// untouched remainder of the input.
pub proof fn lemma_abandon_prefix<T>(input: Seq<T>, ds: Seq<Decision<T>>)
    requires
        ds.len() <= input.len(),
    ensures
        decide(input, ds) == decide(input.take(ds.len() as int), ds) + input.skip(
            ds.len() as int,
        ),
    decreases ds.len(),
{
    let k = ds.len() as int;
    if ds.len() == 0 {
        assert(decide(input.take(0), ds) + input.skip(0) =~= input);
    } else {
        lemma_abandon_prefix(input.drop_first(), ds.drop_first());
        assert(input.take(k).drop_first() =~= input.drop_first().take(k - 1));
        assert(input.skip(k) =~= input.drop_first().skip(k - 1));
        match ds[0] {
            Decision::Keep => {
                assert(decide(input, ds) =~= decide(input.take(k), ds) + input.skip(k));
            },
            Decision::Remove => {
                assert(decide(input, ds) =~= decide(input.take(k), ds) + input.skip(k));
            },
            Decision::Replace(v) => {
                assert(decide(input, ds) =~= decide(input.take(k), ds) + input.skip(k));
            },
        }
    }
}

} // verus!
