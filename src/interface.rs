//! Values handed to the request layer.
use vstd::prelude::*;

verus! {

/// A list of names, as one response.
pub struct ListWrapper(Vec<String>);

impl ListWrapper {
    pub closed spec fn view(&self) -> Seq<String> {
        self.0@
    }

    pub fn new(list: Vec<String>) -> (r: ListWrapper)
        ensures
            r@ == list@,
    {
        ListWrapper(list)
    }

    pub fn into_inner(self) -> (r: Vec<String>)
        ensures
            r@ == self@,
    {
        self.0
    }
}

} // verus!
