use vstd::prelude::*;

verus! {

/// A processing stage for scraped items of type `I`.
pub trait Pipeline<I> {
    /// Which outputs this stage may produce for a given input; by default, any.
    open spec fn processes(&self, input: Option<I>, output: Option<I>) -> bool {
        true
    }

    fn try_process(&self, item: Option<I>) -> (out: Option<I>)
        ensures
            self.processes(item, out),
    ;

    fn close(&self);
}

} // verus!
