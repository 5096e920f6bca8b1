use vstd::prelude::*;

verus! {

/// A stream that yields the items of a list in order, then ends.
pub struct MockStream {
    items: Vec<i32>,
    index: usize,
}

impl MockStream {
    /// The items of the list.
    pub closed spec fn items(&self) -> Seq<i32> {
        self.items@
    }

    /// How many items have been yielded.
    pub closed spec fn index(&self) -> nat {
        self.index as nat
    }

    /// The items still to come.
    pub open spec fn rest(&self) -> Seq<i32> {
        self.items().skip(self.index() as int)
    }

    pub open spec fn wf(&self) -> bool {
        self.index() <= self.items().len()
    }

    /// A stream over `items`, at its start.
    pub fn new(items: Vec<i32>) -> (r: MockStream)
        ensures
            r.wf(),
            r.items() == items@,
            r.index() == 0,
            r.rest() == items@,
    {
        MockStream { items, index: 0 }
    }

    /// The next item, or `None` once every item has been yielded.
    pub fn poll_next(&mut self) -> (r: Option<i32>)
        requires
            old(self).wf(),
        ensures
            final(self).wf(),
            final(self).items() == old(self).items(),
            old(self).rest().len() == 0 ==> r is None && final(self).index() == old(self).index(),
            old(self).rest().len() > 0 ==> {
                &&& r == Some(old(self).rest()[0])
                &&& final(self).index() == old(self).index() + 1
                &&& final(self).rest() == old(self).rest().drop_first()
            },
    {
        if self.index < self.items.len() {
            let item = self.items[self.index];
            self.index = self.index + 1;
            assert(self.rest() =~= old(self).rest().drop_first());
            Some(item)
        } else {
            None
        }
    }

    /// Yields every remaining item, in order, until the stream ends.
    pub fn collect(&mut self) -> (r: Vec<i32>)
        requires
            old(self).wf(),
        ensures
            final(self).wf(),
            r@ == old(self).rest(),
            final(self).rest().len() == 0,
            final(self).items() == old(self).items(),
    {
        let mut out: Vec<i32> = Vec::new();
        loop
            invariant
                self.wf(),
                self.items() == old(self).items(),
                old(self).rest() == out@ + self.rest(),
            ensures
                self.wf(),
                self.items() == old(self).items(),
                out@ == old(self).rest(),
                self.rest().len() == 0,
            decreases self.rest().len(),
        {
            match self.poll_next() {
                None => {
                    assert(out@ =~= old(self).rest());
                    break;
                },
                Some(item) => {
                    out.push(item);
                },
            }
        }
        out
    }
}

} // verus!
