//! Forward scan over a vector with in-place mutation, removal and insertion.

use vstd::prelude::*;

verus! {

/// Forward scan over a vector with mutation, item insertion and removal.
///
/// Provides an iterator-like interface over a vector which allows mutation,
/// inserting new items before or after the current item, and removal of items.
/// If no items need to be inserted, use [`crate::VecMutScan`] instead.
///
/// Items are kept in the vector in order. When items are removed, a gap
/// `[write, read)` opens between the finalized and the unvisited region. When
/// items are inserted and no gap is open, the excess is stored in an overflow
/// queue. The queue invariant is that the queue is only ever non-empty while
/// no gap is open (`write == read`): insertion prefers an open gap over the
/// queue, and the queue is drained before the gap can reopen.
///
/// The scan takes the vector's contents when it is created (the caller's
/// vector is left empty while the scan runs) and [`close`](VecGrowScan::close)
/// hands the result back. Abandoning the scan without calling `close` loses
/// the items but can never corrupt the vector: it is simply left empty.
pub struct VecGrowScan<'a, T> {
    /// The caller's vector. Emptied while the scan runs; `close` restores it.
    pub dest: &'a mut Vec<T>,
    /// The items: finalized in `[0, write)`, unvisited in `[write, buf.len())`.
    pub buf: Vec<T>,
    /// Overflow queue of inserted items that could not take a slot yet;
    /// index 0 is the front of the queue.
    pub queue: Vec<T>,
    /// Number of items finalized so far (kept, replaced or inserted).
    pub write: usize,
    /// Position, in the original sequence, of the next unvisited item.
    pub read: usize,
    /// Length of the original sequence.
    pub end: usize,
}

/// Handle for the current element of a [`VecGrowScan`].
///
/// Exactly one terminal action consumes the handle: [`keep`](VecGrowScanItem::keep),
/// [`remove`](VecGrowScanItem::remove), [`replace`](VecGrowScanItem::replace),
/// one of the `replace_with` methods, or one of the `insert_after` methods.
/// Dropping the handle without a terminal action leaves the scan unchanged, so
/// the same element is returned again by the next call to `next`.
pub struct VecGrowScanItem<'s, 'a, T> {
    /// The scan this handle addresses; exclusively borrowed while the handle lives.
    pub scan: &'s mut VecGrowScan<'a, T>,
}

impl<'a, T> VecGrowScan<'a, T> {
    /// Cursor positions are ordered, the buffer holds exactly the finalized
    /// and the unvisited items, and the queue is only non-empty while no gap
    /// is open.
    pub open spec fn wf(&self) -> bool {
        &&& self.write <= self.read <= self.end
        &&& self.buf@.len() == self.end - (self.read - self.write)
        &&& self.queue@.len() > 0 ==> self.write == self.read
    }

    /// The finalized region `[0, write)`: items already committed, in final order.
    pub open spec fn finalized(&self) -> Seq<T> {
        self.buf@.subrange(0, self.write as int)
    }

    /// The unvisited region `[read, end)` of the original sequence.
    pub open spec fn pending(&self) -> Seq<T> {
        self.buf@.subrange(self.write as int, self.buf@.len() as int)
    }

    /// Everything committed to precede the unvisited items: the finalized
    /// region followed by the queued insertions, in final order.
    pub open spec fn committed(&self) -> Seq<T> {
        self.finalized() + self.queue@
    }

    /// What `close` will hand back if no further action is taken.
    pub open spec fn output(&self) -> Seq<T> {
        self.committed() + self.pending()
    }

    /// Begin a scan over a vector with mutation, insertion and removal.
    ///
    /// The vector is emptied for the duration of the scan; `close` restores it.
    pub fn new(vec: &'a mut Vec<T>) -> (r: VecGrowScan<'a, T>)
        ensures
            r.wf(),
            r.committed() == Seq::<T>::empty(),
            r.pending() == old(vec)@,
            r.write == 0 && r.read == 0 && r.end == old(vec)@.len(),
            r.queue@ == Seq::<T>::empty(),
            r.dest@ == Seq::<T>::empty(),
            *final(vec) == *final(r.dest),
    {
        let mut buf: Vec<T> = Vec::new();
        core::mem::swap(vec, &mut buf);
        let end = buf.len();
        let r = VecGrowScan { dest: vec, buf, queue: Vec::new(), write: 0, read: 0, end };
        proof {
            assert(r.committed() =~= Seq::<T>::empty());
            assert(r.pending() =~= old(vec)@);
        }
        r
    }

    /// Advance to the next item of the vector.
    ///
    /// Returns a handle for the next unvisited element, or `None` once every
    /// element has been visited. Inserted items are never returned.
    pub fn next<'s>(&'s mut self) -> (r: Option<VecGrowScanItem<'s, 'a, T>>)
        requires
            old(self).wf(),
        ensures
            match r {
                Some(item) => {
                    &&& *item.scan == *old(self)
                    &&& *final(item.scan) == *final(self)
                    &&& old(self).pending().len() > 0
                },
                None => {
                    &&& *final(self) == *old(self)
                    &&& old(self).pending().len() == 0
                },
            },
    {
        if self.read != self.end {
            Some(VecGrowScanItem { scan: self })
        } else {
            None
        }
    }

    /// Insert an item between the items already visited and the items not
    /// visited yet. Inserted items are not returned during iteration.
    ///
    /// If a gap is open the item takes a slot directly; otherwise it joins
    /// the back of the overflow queue.
    pub fn insert(&mut self, item: T)
        requires
            old(self).wf(),
        ensures
            final(self).wf(),
            final(self).committed() == old(self).committed().push(item),
            final(self).pending() == old(self).pending(),
            final(self).read == old(self).read,
            final(self).end == old(self).end,
            final(self).dest == old(self).dest,
            old(self).write < old(self).read ==> {
                &&& final(self).finalized() == old(self).finalized().push(item)
                &&& final(self).queue@ == old(self).queue@
                &&& final(self).write == old(self).write + 1
            },
            old(self).write == old(self).read ==> {
                &&& final(self).finalized() == old(self).finalized()
                &&& final(self).queue@ == old(self).queue@.push(item)
                &&& final(self).write == old(self).write
            },
    {
        if self.write < self.read {
            // The queue is empty by the queue invariant, so the slot at
            // `write` is where the item belongs.
            let w = self.write;
            self.buf.insert(w, item);
            self.write = w + 1;
            proof {
                assert(final(self).finalized() =~= old(self).finalized().push(item));
                assert(final(self).pending() =~= old(self).pending());
                assert(final(self).committed() =~= old(self).committed().push(item));
            }
        } else {
            self.queue.push(item);
            proof {
                assert(final(self).committed() =~= old(self).committed().push(item));
            }
        }
    }

    /// Insert a sequence of items between the items already visited and the
    /// items not visited yet. Inserted items are not returned during
    /// iteration. Equivalent to calling [`insert`](VecGrowScan::insert) for
    /// each element of `values` in order: a leading part of `values` fills
    /// the open gap, the rest joins the back of the overflow queue.
    pub fn insert_many(&mut self, values: Vec<T>)
        requires
            old(self).wf(),
        ensures
            final(self).wf(),
            final(self).committed() == old(self).committed() + values@,
            final(self).pending() == old(self).pending(),
            final(self).read == old(self).read,
            final(self).end == old(self).end,
            final(self).dest == old(self).dest,
            ({
                let gap = old(self).read - old(self).write;
                let direct = if values@.len() <= gap {
                    values@.len() as int
                } else {
                    gap
                };
                &&& final(self).finalized() == old(self).finalized() + values@.take(direct)
                &&& final(self).queue@ == old(self).queue@ + values@.skip(direct)
                &&& final(self).write == old(self).write + direct
            }),
    {
        let ghost pre = *self;
        let ghost all = values@;
        let mut values = values;
        // First fill the open gap, one slot per item.
        loop
            invariant
                pre == *old(self),
                self.wf(),
                values@.len() <= all.len(),
                values@ == all.skip(all.len() - values@.len()),
                self.finalized() == pre.finalized() + all.take(all.len() - values@.len()),
                self.queue@ == pre.queue@,
                self.write == pre.write + (all.len() - values@.len()),
                self.pending() == pre.pending(),
                self.read == pre.read,
                self.end == pre.end,
                self.dest == pre.dest,
                all.len() > values@.len() ==> pre.write + (all.len() - values@.len())
                    <= pre.read,
            ensures
                pre == *old(self),
                self.wf(),
                values@.len() <= all.len(),
                values@ == all.skip(all.len() - values@.len()),
                self.finalized() == pre.finalized() + all.take(all.len() - values@.len()),
                self.queue@ == pre.queue@,
                self.write == pre.write + (all.len() - values@.len()),
                self.pending() == pre.pending(),
                self.read == pre.read,
                self.end == pre.end,
                self.dest == pre.dest,
                values@.len() == 0 || self.write == self.read,
            decreases values@.len(),
        {
            if !(self.write < self.read && values.len() > 0) {
                break ;
            }
            let ghost done = all.len() - values@.len();
            let v = values.remove(0);
            self.insert(v);
            proof {
                assert(all.take(done + 1) =~= all.take(done).push(all[done]));
                assert(values@ =~= all.skip(done + 1));
            }
        }
        // Then bulk-append whatever the gap could not take to the queue.
        let ghost mid = *self;
        let ghost left = values@;
        self.queue.append(&mut values);
        proof {
            assert(self.finalized() =~= mid.finalized());
            assert(self.pending() =~= mid.pending());
            if all.len() <= pre.read - pre.write {
                assert(all.take(all.len() as int) =~= all);
                assert(left =~= all.skip(all.len() as int));
            }
            assert(self.committed() =~= old(self).committed() + all);
        }
    }

    /// Access the whole vector.
    ///
    /// While scanning, the contents are not contiguous: the first slice holds
    /// the already finalized items, the second the queued insertions, and the
    /// third the unvisited items, starting with the element the following
    /// [`next`](VecGrowScan::next) call returns.
    pub fn slices(&self) -> (r: (&[T], &[T], &[T]))
        requires
            self.wf(),
        ensures
            r.0@ == self.finalized(),
            r.1@ == self.queue@,
            r.2@ == self.pending(),
    {
        let (fin, pend) = self.buf.as_slice().split_at(self.write);
        (fin, self.queue.as_slice(), pend)
    }

    /// Access and mutate the whole vector.
    ///
    /// As [`slices`](VecGrowScan::slices), but the three regions are returned
    /// as mutable slices. Writes through them change the items in place; the
    /// cursor does not move.
    pub fn slices_mut(&mut self) -> (r: (&mut [T], &mut [T], &mut [T]))
        requires
            old(self).wf(),
        ensures
            r.0@ == old(self).finalized(),
            r.1@ == old(self).queue@,
            r.2@ == old(self).pending(),
            final(self).write == old(self).write,
            final(self).read == old(self).read,
            final(self).end == old(self).end,
            final(self).dest == old(self).dest,
            final(self).buf@ == final(r.0)@ + final(r.2)@,
            final(self).queue@ == final(r.1)@,
            (final(r.0)@.len() == old(self).finalized().len() && final(r.1)@.len() == old(
                self,
            ).queue@.len() && final(r.2)@.len() == old(self).pending().len()) ==> {
                &&& final(self).wf()
                &&& final(self).finalized() == final(r.0)@
                &&& final(self).queue@ == final(r.1)@
                &&& final(self).pending() == final(r.2)@
            },
    {
        let (fin, pend) = self.buf.as_mut_slice().split_at_mut(self.write);
        proof {
            assert(fin@ =~= old(self).finalized());
            assert(pend@ =~= old(self).pending());
        }
        (fin, self.queue.as_mut_slice(), pend)
    }

    /// End the scan and hand the result back to the caller's vector.
    ///
    /// The result is the finalized prefix, then the queued insertions, then
    /// the unvisited suffix, whether the scan ran to exhaustion or was
    /// abandoned early.
    pub fn close(self)
        requires
            self.wf(),
        ensures
            final(self.dest)@ == self.output(),
    {
        let VecGrowScan { dest, mut buf, mut queue, write, read: _, end: _ } = self;
        let ghost obuf = buf@;
        let ghost oq = queue@;
        let mut i = write;
        proof {
            assert(obuf.take(write as int) + oq.take(0) + obuf.skip(write as int) =~= obuf);
        }
        loop
            invariant
                write <= i,
                i - write <= oq.len(),
                write <= obuf.len(),
                i <= buf@.len(),
                buf@.len() == obuf.len() + (i - write),
                buf@ == obuf.take(write as int) + oq.take(i - write) + obuf.skip(write as int),
                queue@ == oq.skip(i - write),
            ensures
                buf@ == obuf.take(write as int) + oq + obuf.skip(write as int),
            decreases queue@.len(),
        {
            if queue.len() == 0 {
                proof {
                    assert(oq.take(i - write) =~= oq);
                }
                break ;
            }
            let ghost done = i - write;
            let v = queue.remove(0);
            buf.insert(i, v);
            proof {
                vstd::std_specs::vec::axiom_spec_len(&buf);
            }
            i = i + 1;
            proof {
                assert(oq.take(done + 1) =~= oq.take(done).push(oq[done]));
                assert(buf@ =~= obuf.take(write as int) + oq.take(done + 1) + obuf.skip(
                    write as int,
                ));
            }
        }
        core::mem::swap(dest, &mut buf);
        proof {
            assert(oq.take(oq.len() as int) =~= oq);
            assert(self.finalized() =~= obuf.take(write as int));
            assert(self.pending() =~= obuf.skip(write as int));
            assert(final(dest)@ =~= self.output());
        }
    }

    /// Finalize the current element unchanged and advance the cursor,
    /// interleaving queued insertions: when no gap is open and the queue is
    /// non-empty, the front of the queue takes the finalized slot and the
    /// current element joins the back of the queue.
    fn advance_step(&mut self)
        requires
            old(self).wf(),
            old(self).pending().len() > 0,
        ensures
            final(self).wf(),
            final(self).committed() == old(self).committed().push(old(self).pending()[0]),
            final(self).pending() == old(self).pending().drop_first(),
            final(self).read == old(self).read + 1,
            final(self).write == old(self).write + 1,
            final(self).end == old(self).end,
            final(self).dest == old(self).dest,
            old(self).queue@.len() == 0 ==> {
                &&& final(self).finalized() == old(self).finalized().push(
                    old(self).pending()[0],
                )
                &&& final(self).queue@ == old(self).queue@
            },
            old(self).queue@.len() > 0 ==> {
                &&& final(self).finalized() == old(self).finalized().push(old(self).queue@[0])
                &&& final(self).queue@ == old(self).queue@.drop_first().push(
                    old(self).pending()[0],
                )
            },
    {
        let w = self.write;
        if self.read == self.write && self.queue.len() > 0 {
            // Rotation: the dequeued item takes the slot, the current element
            // joins the back of the queue, and both positions advance.
            let mut x = self.queue.remove(0);
            core::mem::swap(&mut x, &mut self.buf[w]);
            self.queue.push(x);
            self.write = w + 1;
            self.read = self.read + 1;
            proof {
                assert(final(self).finalized() =~= old(self).finalized().push(
                    old(self).queue@[0],
                ));
                assert(final(self).pending() =~= old(self).pending().drop_first());
                assert(final(self).committed() =~= old(self).committed().push(
                    old(self).pending()[0],
                ));
            }
        } else {
            // The current element is already in place; both positions advance.
            self.write = w + 1;
            self.read = self.read + 1;
            proof {
                assert(final(self).finalized() =~= old(self).finalized().push(
                    old(self).pending()[0],
                ));
                assert(final(self).pending() =~= old(self).pending().drop_first());
                assert(final(self).committed() =~= old(self).committed().push(
                    old(self).pending()[0],
                ));
            }
        }
    }

    /// Take the current element out and advance the cursor, refilling the
    /// newly opened gap from the front of the queue when the queue is
    /// non-empty.
    fn remove_step(&mut self) -> (r: T)
        requires
            old(self).wf(),
            old(self).pending().len() > 0,
        ensures
            final(self).wf(),
            r == old(self).pending()[0],
            final(self).committed() == old(self).committed(),
            final(self).pending() == old(self).pending().drop_first(),
            final(self).read == old(self).read + 1,
            final(self).end == old(self).end,
            final(self).dest == old(self).dest,
            old(self).queue@.len() == 0 ==> {
                &&& final(self).finalized() == old(self).finalized()
                &&& final(self).queue@ == old(self).queue@
                &&& final(self).write == old(self).write
            },
            old(self).queue@.len() > 0 ==> {
                &&& final(self).finalized() == old(self).finalized().push(old(self).queue@[0])
                &&& final(self).queue@ == old(self).queue@.drop_first()
                &&& final(self).write == old(self).write + 1
            },
    {
        let w = self.write;
        if self.queue.len() > 0 {
            // The front of the queue takes the freed slot at once, so the
            // queue never holds more than strictly necessary.
            let mut x = self.queue.remove(0);
            core::mem::swap(&mut x, &mut self.buf[w]);
            self.write = w + 1;
            self.read = self.read + 1;
            proof {
                assert(final(self).finalized() =~= old(self).finalized().push(
                    old(self).queue@[0],
                ));
                assert(final(self).pending() =~= old(self).pending().drop_first());
                assert(final(self).committed() =~= old(self).committed());
            }
            x
        } else {
            let x = self.buf.remove(w);
            self.read = self.read + 1;
            proof {
                assert(final(self).finalized() =~= old(self).finalized());
                assert(final(self).pending() =~= old(self).pending().drop_first());
                assert(final(self).committed() =~= old(self).committed());
            }
            x
        }
    }
}

impl<'s, 'a, T> VecGrowScanItem<'s, 'a, T> {
    /// Read the current element.
    pub fn get(&self) -> (r: &T)
        requires
            self.scan.wf(),
            self.scan.pending().len() > 0,
        ensures
            *r == old(self.scan).pending()[0],
    {
        &self.scan.buf[self.scan.write]
    }

    /// Overwrite the current element in place; the cursor does not move.
    pub fn set(&mut self, value: T)
        requires
            old(self).scan.wf(),
            old(self).scan.pending().len() > 0,
        ensures
            final(self).scan.wf(),
            final(self).scan.pending() == old(self).scan.pending().update(0, value),
            final(self).scan.finalized() == old(self).scan.finalized(),
            final(self).scan.queue@ == old(self).scan.queue@,
            final(self).scan.write == old(self).scan.write,
            final(self).scan.read == old(self).scan.read,
            final(self).scan.end == old(self).scan.end,
            final(self).scan.dest == old(self).scan.dest,
            *final(old(self).scan) == *final(final(self).scan),
    {
        let w = self.scan.write;
        self.scan.buf[w] = value;
        proof {
            assert(final(self).scan.pending() =~= old(self).scan.pending().update(0, value));
            assert(final(self).scan.finalized() =~= old(self).scan.finalized());
        }
    }

    /// Finalize the current element unchanged and advance the cursor.
    pub fn keep(self)
        requires
            self.scan.wf(),
            self.scan.pending().len() > 0,
        ensures
            final(self.scan).wf(),
            final(self.scan).committed() == old(self.scan).committed().push(
                old(self.scan).pending()[0],
            ),
            final(self.scan).pending() == old(self.scan).pending().drop_first(),
            final(self.scan).read == old(self.scan).read + 1,
            final(self.scan).write == old(self.scan).write + 1,
            final(self.scan).end == old(self.scan).end,
            final(self.scan).dest == old(self.scan).dest,
            old(self.scan).queue@.len() == 0 ==> {
                &&& final(self.scan).finalized() == old(self.scan).finalized().push(
                    old(self.scan).pending()[0],
                )
                &&& final(self.scan).queue@ == old(self.scan).queue@
            },
            old(self.scan).queue@.len() > 0 ==> {
                &&& final(self.scan).finalized() == old(self.scan).finalized().push(
                    old(self.scan).queue@[0],
                )
                &&& final(self.scan).queue@ == old(self.scan).queue@.drop_first().push(
                    old(self.scan).pending()[0],
                )
            },
    {
        self.scan.advance_step();
    }

    /// Remove and return the current element.
    pub fn remove(self) -> (r: T)
        requires
            self.scan.wf(),
            self.scan.pending().len() > 0,
        ensures
            final(self.scan).wf(),
            r == old(self.scan).pending()[0],
            final(self.scan).committed() == old(self.scan).committed(),
            final(self.scan).pending() == old(self.scan).pending().drop_first(),
            final(self.scan).read == old(self.scan).read + 1,
            final(self.scan).end == old(self.scan).end,
            final(self.scan).dest == old(self.scan).dest,
            old(self.scan).queue@.len() == 0 ==> {
                &&& final(self.scan).finalized() == old(self.scan).finalized()
                &&& final(self.scan).queue@ == old(self.scan).queue@
                &&& final(self.scan).write == old(self.scan).write
            },
            old(self.scan).queue@.len() > 0 ==> {
                &&& final(self.scan).finalized() == old(self.scan).finalized().push(
                    old(self.scan).queue@[0],
                )
                &&& final(self.scan).queue@ == old(self.scan).queue@.drop_first()
                &&& final(self.scan).write == old(self.scan).write + 1
            },
    {
        self.scan.remove_step()
    }

    /// Replace the current element with a new value and return the old value.
    ///
    /// Equivalent to [`remove`](VecGrowScanItem::remove) followed by
    /// [`VecGrowScan::insert`], without an intermediate move.
    pub fn replace(self, value: T) -> (r: T)
        requires
            self.scan.wf(),
            self.scan.pending().len() > 0,
        ensures
            final(self.scan).wf(),
            r == old(self.scan).pending()[0],
            final(self.scan).committed() == old(self.scan).committed().push(value),
            final(self.scan).pending() == old(self.scan).pending().drop_first(),
            final(self.scan).read == old(self.scan).read + 1,
            final(self.scan).end == old(self.scan).end,
            final(self.scan).dest == old(self.scan).dest,
            old(self.scan).queue@.len() == 0 ==> {
                &&& final(self.scan).finalized() == old(self.scan).finalized().push(value)
                &&& final(self.scan).queue@ == old(self.scan).queue@
            },
            old(self.scan).queue@.len() > 0 ==> {
                &&& final(self.scan).finalized() == old(self.scan).finalized().push(
                    old(self.scan).queue@[0],
                )
                &&& final(self.scan).queue@ == old(self.scan).queue@.drop_first().push(value)
            },
    {
        let r = self.scan.remove_step();
        self.scan.insert(value);
        r
    }

    /// Replace the current element with a sequence of items. Returns the
    /// replaced element.
    pub fn replace_with_many(self, values: Vec<T>) -> (r: T)
        requires
            self.scan.wf(),
            self.scan.pending().len() > 0,
        ensures
            final(self.scan).wf(),
            r == old(self.scan).pending()[0],
            final(self.scan).committed() == old(self.scan).committed() + values@,
            final(self.scan).pending() == old(self.scan).pending().drop_first(),
            final(self.scan).read == old(self.scan).read + 1,
            final(self.scan).end == old(self.scan).end,
            final(self.scan).dest == old(self.scan).dest,
    {
        let r = self.scan.remove_step();
        self.scan.insert_many(values);
        r
    }

    /// Like [`replace`](VecGrowScanItem::replace), but compute the replacement
    /// value with ownership of the removed element.
    ///
    /// The element is removed and the cursor advanced before the transform
    /// runs, so a failing transform loses only that one element.
    pub fn replace_with<F: FnOnce(T) -> T>(self, f: F)
        requires
            self.scan.wf(),
            self.scan.pending().len() > 0,
            call_requires(f, (self.scan.pending()[0],)),
        ensures
            final(self.scan).wf(),
            exists|y: T|
                {
                    &&& #[trigger] call_ensures(f, (old(self.scan).pending()[0],), y)
                    &&& final(self.scan).committed() == old(self.scan).committed().push(y)
                },
            final(self.scan).pending() == old(self.scan).pending().drop_first(),
            final(self.scan).read == old(self.scan).read + 1,
            final(self.scan).end == old(self.scan).end,
            final(self.scan).dest == old(self.scan).dest,
    {
        let removed = self.scan.remove_step();
        let value = f(removed);
        self.scan.insert(value);
    }

    /// Like [`replace_with_many`](VecGrowScanItem::replace_with_many), but
    /// compute the replacement sequence with ownership of the removed element.
    ///
    /// The element is removed and the cursor advanced before the transform
    /// runs, so a failing transform loses only that one element.
    pub fn replace_with_many_with<F: FnOnce(T) -> Vec<T>>(self, f: F)
        requires
            self.scan.wf(),
            self.scan.pending().len() > 0,
            call_requires(f, (self.scan.pending()[0],)),
        ensures
            final(self.scan).wf(),
            exists|ys: Vec<T>|
                {
                    &&& #[trigger] call_ensures(f, (old(self.scan).pending()[0],), ys)
                    &&& final(self.scan).committed() == old(self.scan).committed() + ys@
                },
            final(self.scan).pending() == old(self.scan).pending().drop_first(),
            final(self.scan).read == old(self.scan).read + 1,
            final(self.scan).end == old(self.scan).end,
            final(self.scan).dest == old(self.scan).dest,
    {
        let removed = self.scan.remove_step();
        let values = f(removed);
        self.scan.insert_many(values);
    }

    /// Insert an item before the current element.
    pub fn insert_before(&mut self, value: T)
        requires
            old(self).scan.wf(),
        ensures
            final(self).scan.wf(),
            final(self).scan.committed() == old(self).scan.committed().push(value),
            final(self).scan.pending() == old(self).scan.pending(),
            final(self).scan.read == old(self).scan.read,
            final(self).scan.end == old(self).scan.end,
            final(self).scan.dest == old(self).scan.dest,
            *final(old(self).scan) == *final(final(self).scan),
    {
        self.scan.insert(value);
    }

    /// Insert a sequence of items before the current element.
    pub fn insert_many_before(&mut self, values: Vec<T>)
        requires
            old(self).scan.wf(),
        ensures
            final(self).scan.wf(),
            final(self).scan.committed() == old(self).scan.committed() + values@,
            final(self).scan.pending() == old(self).scan.pending(),
            final(self).scan.read == old(self).scan.read,
            final(self).scan.end == old(self).scan.end,
            final(self).scan.dest == old(self).scan.dest,
            *final(old(self).scan) == *final(final(self).scan),
    {
        self.scan.insert_many(values);
    }

    /// Insert an item after the current element. Inserted items are not
    /// returned during iteration.
    ///
    /// This consumes the handle, finalizing the current element first: the
    /// item lands immediately after it.
    pub fn insert_after(self, value: T)
        requires
            self.scan.wf(),
            self.scan.pending().len() > 0,
        ensures
            final(self.scan).wf(),
            final(self.scan).committed() == old(self.scan).committed().push(
                old(self.scan).pending()[0],
            ).push(value),
            final(self.scan).pending() == old(self.scan).pending().drop_first(),
            final(self.scan).read == old(self.scan).read + 1,
            final(self.scan).end == old(self.scan).end,
            final(self.scan).dest == old(self.scan).dest,
    {
        self.scan.advance_step();
        self.scan.insert(value);
    }

    /// Insert a sequence of items after the current element. Inserted items
    /// are not returned during iteration.
    ///
    /// This consumes the handle, finalizing the current element first: the
    /// items land immediately after it.
    pub fn insert_many_after(self, values: Vec<T>)
        requires
            self.scan.wf(),
            self.scan.pending().len() > 0,
        ensures
            final(self.scan).wf(),
            final(self.scan).committed() == old(self.scan).committed().push(
                old(self.scan).pending()[0],
            ) + values@,
            final(self.scan).pending() == old(self.scan).pending().drop_first(),
            final(self.scan).read == old(self.scan).read + 1,
            final(self.scan).end == old(self.scan).end,
            final(self.scan).dest == old(self.scan).dest,
    {
        self.scan.advance_step();
        self.scan.insert_many(values);
    }

    /// Access the whole vector while this handle is alive.
    ///
    /// The first slice holds the finalized items, the second the queued
    /// insertions, and the third the unvisited items, starting with the
    /// element this handle addresses.
    pub fn slices(&self) -> (r: (&[T], &[T], &[T]))
        requires
            self.scan.wf(),
        ensures
            r.0@ == old(self.scan).finalized(),
            r.1@ == old(self.scan).queue@,
            r.2@ == old(self.scan).pending(),
    {
        self.scan.slices()
    }

    /// Access and mutate the whole vector while this handle is alive.
    ///
    /// As [`slices`](VecGrowScanItem::slices), but mutable; writes through the
    /// slices change the items in place without moving the cursor.
    pub fn slices_mut(&mut self) -> (r: (&mut [T], &mut [T], &mut [T]))
        requires
            old(self).scan.wf(),
        ensures
            r.0@ == old(self).scan.finalized(),
            r.1@ == old(self).scan.queue@,
            r.2@ == old(self).scan.pending(),
            final(self).scan.write == old(self).scan.write,
            final(self).scan.read == old(self).scan.read,
            final(self).scan.end == old(self).scan.end,
            final(self).scan.dest == old(self).scan.dest,
            *final(old(self).scan) == *final(final(self).scan),
            final(self).scan.buf@ == final(r.0)@ + final(r.2)@,
            final(self).scan.queue@ == final(r.1)@,
            (final(r.0)@.len() == old(self).scan.finalized().len() && final(r.1)@.len() == old(
                self,
            ).scan.queue@.len() && final(r.2)@.len() == old(self).scan.pending().len()) ==> {
                &&& final(self).scan.wf()
                &&& final(self).scan.finalized() == final(r.0)@
                &&& final(self).scan.queue@ == final(r.1)@
                &&& final(self).scan.pending() == final(r.2)@
            },
    {
        self.scan.slices_mut()
    }
}

/// One operation on a grow scan: an insertion at the boundary, or one
/// terminal action for the element currently under the cursor.
pub enum GrowOp<T> {
    /// Insert the given value between the visited and the unvisited items
    /// ([`VecGrowScan::insert`], [`VecGrowScanItem::insert_before`]).
    Insert(T),
    /// Finalize the current element unchanged ([`VecGrowScanItem::keep`];
    /// also the first half of [`VecGrowScanItem::insert_after`]).
    Keep,
    /// Drop the current element ([`VecGrowScanItem::remove`]).
    Remove,
    /// Substitute the given value for the current element
    /// ([`VecGrowScanItem::replace`]).
    Replace(T),
}

/// The `(committed, pending)` state after one operation, exactly as the
/// ensures of the insertion and terminal methods state it. An operation that
/// needs a current element changes nothing on an exhausted scan (the protocol
/// never takes one).
pub open spec fn grow_step<T>(committed: Seq<T>, pend: Seq<T>, op: GrowOp<T>) -> (Seq<T>, Seq<T>) {
    match op {
        GrowOp::Insert(v) => (committed.push(v), pend),
        GrowOp::Keep => if pend.len() == 0 {
            (committed, pend)
        } else {
            (committed.push(pend[0]), pend.drop_first())
        },
        GrowOp::Remove => if pend.len() == 0 {
            (committed, pend)
        } else {
            (committed, pend.drop_first())
        },
        GrowOp::Replace(v) => if pend.len() == 0 {
            (committed, pend)
        } else {
            (committed.push(v), pend.drop_first())
        },
    }
}

/// The `(committed, pending)` state after a whole sequence of operations.
pub open spec fn grow_run<T>(committed: Seq<T>, pend: Seq<T>, ops: Seq<GrowOp<T>>) -> (
    Seq<T>,
    Seq<T>,
)
    decreases ops.len(),
{
    if ops.len() == 0 {
        (committed, pend)
    } else {
        let s = grow_step(committed, pend, ops[0]);
        grow_run(s.0, s.1, ops.drop_first())
    }
}

/// The store that the unvisited suffix `pend` turns into under a sequence of
/// operations: each insertion lands at its requested position, before every
/// element not yet finalized at that moment, and whatever no operation
/// reached stays untouched at the end.
pub open spec fn grow_decide<T>(pend: Seq<T>, ops: Seq<GrowOp<T>>) -> Seq<T>
    decreases ops.len(),
{
    if ops.len() == 0 {
        pend
    } else {
        match ops[0] {
            GrowOp::Insert(v) => seq![v] + grow_decide(pend, ops.drop_first()),
            GrowOp::Keep => if pend.len() == 0 {
                grow_decide(pend, ops.drop_first())
            } else {
                seq![pend[0]] + grow_decide(pend.drop_first(), ops.drop_first())
            },
            GrowOp::Remove => if pend.len() == 0 {
                grow_decide(pend, ops.drop_first())
            } else {
                grow_decide(pend.drop_first(), ops.drop_first())
            },
            GrowOp::Replace(v) => if pend.len() == 0 {
                grow_decide(pend, ops.drop_first())
            } else {
                seq![v] + grow_decide(pend.drop_first(), ops.drop_first())
            },
        }
    }
}

/// Law: from any scan state, any interleaving of insertions with keep, remove
/// and replace decisions, followed by closing, yields the already committed
/// items, then the decided remainder with every insertion at its requested
/// position, then the untouched suffix.
pub proof fn lemma_grow_run_output<T>(committed: Seq<T>, pend: Seq<T>, ops: Seq<GrowOp<T>>)
    ensures
        grow_run(committed, pend, ops).0 + grow_run(committed, pend, ops).1 == committed
            + grow_decide(pend, ops),
    decreases ops.len(),
{
    if ops.len() == 0 {
    } else {
        let s = grow_step(committed, pend, ops[0]);
        lemma_grow_run_output(s.0, s.1, ops.drop_first());
        let rest = grow_decide(s.1, ops.drop_first());
        match ops[0] {
            GrowOp::Insert(v) => {
                assert(committed.push(v) + rest =~= committed + (seq![v] + rest));
            },
            GrowOp::Keep => {
                if pend.len() > 0 {
                    assert(committed.push(pend[0]) + rest =~= committed + (seq![pend[0]] + rest));
                }
            },
            GrowOp::Remove => {
            },
            GrowOp::Replace(v) => {
                if pend.len() > 0 {
                    assert(committed.push(v) + rest =~= committed + (seq![v] + rest));
                }
            },
        }
    }
}

/// Law: a grow scan that only keeps elements, inserting nothing, reproduces
/// the original sequence exactly.
pub proof fn lemma_grow_keep_all<T>(pend: Seq<T>, ops: Seq<GrowOp<T>>)
    requires
        forall|i: int| 0 <= i < ops.len() ==> ops[i] is Keep,
    ensures
        grow_decide(pend, ops) == pend,
    decreases ops.len(),
{
    if ops.len() == 0 {
    } else if pend.len() == 0 {
        lemma_grow_keep_all(pend, ops.drop_first());
    } else {
        lemma_grow_keep_all(pend.drop_first(), ops.drop_first());
        assert(seq![pend[0]] + pend.drop_first() =~= pend);
    }
}

} // verus!
