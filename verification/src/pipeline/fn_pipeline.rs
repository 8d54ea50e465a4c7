use vstd::prelude::*;
use crate::pipeline::pipeline::Pipeline;

verus! {

/// A pipeline stage made of a closure.
#[verifier::reject_recursive_types(T)]
pub struct FnPipeline<T, F: Fn(Option<T>) -> Option<T>> {
    handler: F,
    _item: core::marker::PhantomData<T>,
}

impl<T, F: Fn(Option<T>) -> Option<T>> FnPipeline<T, F> {
    #[verifier::type_invariant]
    spec fn handler_total(&self) -> bool {
        forall|x: Option<T>| self.handler.requires((x,))
    }

    pub closed spec fn handler(&self) -> F {
        self.handler
    }

    pub fn new(handler: F) -> (p: Self)
        requires
            forall|x: Option<T>| handler.requires((x,)),
        ensures
            p.handler() == handler,
    {
        FnPipeline { handler, _item: core::marker::PhantomData }
    }
}

impl<T, F: Fn(Option<T>) -> Option<T>> Pipeline<T> for FnPipeline<T, F> {
    open spec fn processes(&self, input: Option<T>, output: Option<T>) -> bool {
        self.handler().ensures((input,), output)
    }

    fn try_process(&self, item: Option<T>) -> (out: Option<T>) {
        proof { use_type_invariant(self); }
        (self.handler)(item)
    }

    fn close(&self) {
    }
}

} // verus!
