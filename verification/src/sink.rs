//! The unilateral sink: an ordered, unbounded queue of records that were
//! observed during a command but do not belong to that command's result.
//!
//! The accumulators push into it in arrival order and never block on it;
//! consumers drain it independently of any command.

use vstd::prelude::*;

use crate::response::{records_view, ResponseData, ResponseView};

verus! {

/// Records diverted out of command scope, in the order they were observed.
#[derive(Debug)]
pub struct UnilateralSink {
    items: Vec<ResponseData>,
}

impl View for UnilateralSink {
    type V = Seq<ResponseView>;

    closed spec fn view(&self) -> Seq<ResponseView> {
        records_view(self.items@)
    }
}

impl UnilateralSink {
    /// An empty sink.
    pub fn new() -> (s: UnilateralSink)
        ensures
            s@ == Seq::<ResponseView>::empty(),
    {
        let items: Vec<ResponseData> = Vec::new();
        proof {
            assert(records_view(items@) =~= Seq::<ResponseView>::empty());
        }
        UnilateralSink { items }
    }

    /// Appends one diverted record; never blocks, never drops.
    pub fn push(&mut self, r: ResponseData)
        ensures
            final(self)@ == old(self)@.push(r@),
    {
        proof {
            assert(records_view(self.items@.push(r)) =~= records_view(self.items@).push(r@));
        }
        self.items.push(r);
    }

    /// How many records have been diverted here.
    pub fn len(&self) -> (n: usize)
        ensures
            n == self@.len(),
    {
        self.items.len()
    }

    /// The diverted records, oldest first.
    pub fn records(&self) -> (v: &Vec<ResponseData>)
        ensures
            records_view(v@) == self@,
    {
        &self.items
    }

    /// Hands the diverted records out for delivery, oldest first.
    pub fn into_records(self) -> (v: Vec<ResponseData>)
        ensures
            records_view(v@) == self@,
    {
        self.items
    }
}

} // verus!
