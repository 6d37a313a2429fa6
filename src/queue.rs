use vstd::prelude::*;

verus! {

/// Room for screenshots between capture and render.
pub const CAPTURE_QUEUE_CAPACITY: usize = 2;

/// Room for frames between render and paint.
pub const FRAME_QUEUE_CAPACITY: usize = 1;

/// A bounded first-in first-out queue that refuses items when full.
pub struct FrameQueue<T> {
    items: Vec<T>,
    capacity: usize,
}

impl<T> FrameQueue<T> {
    /// The queued items, oldest first.
    pub closed spec fn contents(&self) -> Seq<T> {
        self.items@
    }

    /// How many items the queue can hold.
    pub closed spec fn capacity(&self) -> nat {
        self.capacity as nat
    }

    /// The depth never exceeds the capacity, which is positive.
    pub open spec fn wf(&self) -> bool {
        0 < self.capacity() && self.contents().len() <= self.capacity()
    }

    pub fn new(capacity: usize) -> (q: FrameQueue<T>)
        requires
            capacity > 0,
        ensures
            q.wf(),
            q.contents() == Seq::<T>::empty(),
            q.capacity() == capacity,
    {
        FrameQueue { items: Vec::new(), capacity }
    }

    /// Number of queued items.
    pub fn len(&self) -> (n: usize)
        ensures
            n == self.contents().len(),
    {
        self.items.len()
    }

    /// Queues `item` where there is room; where there is none, hands it back
    /// and leaves the queue as it was.
    pub fn try_push(&mut self, item: T) -> (r: Result<(), T>)
        requires
            old(self).wf(),
        ensures
            final(self).wf(),
            final(self).capacity() == old(self).capacity(),
            r is Ok <==> old(self).contents().len() < old(self).capacity(),
            r is Ok ==> final(self).contents() == old(self).contents().push(item),
            r matches Err(back) ==> back == item && final(self).contents() == old(self).contents(),
    {
        if self.items.len() < self.capacity {
            self.items.push(item);
            Ok(())
        } else {
            Err(item)
        }
    }

    /// Takes the oldest item out.
    pub fn pop(&mut self) -> (item: Option<T>)
        requires
            old(self).wf(),
        ensures
            final(self).wf(),
            final(self).capacity() == old(self).capacity(),
            old(self).contents().len() == 0 ==> item.is_none() && final(self).contents() == old(
                self,
            ).contents(),
            old(self).contents().len() > 0 ==> item == Some(old(self).contents()[0])
                && final(self).contents() == old(self).contents().drop_first(),
    {
        if self.items.len() == 0 {
            None
        } else {
            let item = self.items.remove(0);
            assert(self.items@ =~= old(self).items@.drop_first());
            Some(item)
        }
    }
}

} // verus!
