//! Identities of stage executions.
use crate::table::Duplicate;
use crate::text::same;
use vstd::prelude::*;

verus! {

/// One execution of a node.
#[derive(Debug, PartialEq)]
pub struct StageId {
    pub node_id: String,
    pub visit: u32,
}

pub struct StageIdView {
    pub node_id: Seq<char>,
    pub visit: u32,
}

impl View for StageId {
    type V = StageIdView;

    open spec fn view(&self) -> StageIdView {
        StageIdView { node_id: self.node_id@, visit: self.visit }
    }
}

impl DeepView for StageId {
    type V = StageIdView;

    open spec fn deep_view(&self) -> StageIdView {
        self@
    }
}

impl Duplicate for StageId {
    fn duplicate(&self) -> (r: Self) {
        StageId { node_id: self.node_id.clone(), visit: self.visit }
    }
}

impl StageId {
    pub fn new(node_id: &str, visit: u32) -> (r: StageId)
        ensures
            r@ == (StageIdView { node_id: node_id@, visit }),
    {
        StageId { node_id: node_id.to_owned(), visit }
    }

    pub fn same_as(&self, other: &StageId) -> (r: bool)
        ensures
            r == (self@ == other@),
    {
        self.visit == other.visit && same(self.node_id.as_str(), other.node_id.as_str())
    }
}

} // verus!
