use vstd::prelude::*;

use crate::request::Request;
use crate::response::Response;

verus! {

/// Bookkeeping of one spider: how many of its requests and parses are in flight.
pub struct SpiderState {
    /// Requests of this spider that are queued or being downloaded.
    pub in_flight_requests: usize,
    /// Responses of this spider that are being parsed.
    pub in_flight_parse: usize,
    /// Count of all requests this spider has created.
    pub created_requests: usize,
}

impl SpiderState {
    /// A spider is active while it has requests or parses in flight.
    pub open spec fn spec_is_activated(&self) -> bool {
        self.in_flight_requests + self.in_flight_parse > 0
    }

    pub fn new() -> (s: Self)
        ensures
            s.in_flight_requests == 0,
            s.in_flight_parse == 0,
            s.created_requests == 0,
    {
        SpiderState { in_flight_requests: 0, in_flight_parse: 0, created_requests: 0 }
    }

    pub fn is_activated(&self) -> (b: bool)
        ensures
            b == self.spec_is_activated(),
    {
        self.in_flight_requests > 0 || self.in_flight_parse > 0
    }
}


/// What a spider makes of a response: more requests, scraped items, both, or nothing.
pub enum SpiderResult<I> {
    Requests(Vec<Request>),
    Items(Vec<I>),
    Both { requests: Vec<Request>, items: Vec<I> },
    Nothing,
}

/// A crawler: where it starts, and how it reads what it downloaded.
pub trait Spider {
    /// The items this spider scrapes.
    type Item;

    fn name(&self) -> &str;

    /// Which start requests this spider may give; by default, any.
    open spec fn starts_with(&self, requests: Seq<Request>) -> bool {
        true
    }

    /// Which results this spider may make of a response; by default, any.
    open spec fn parses(&self, response: Response, result: SpiderResult<Self::Item>) -> bool {
        true
    }

    fn start_requests(&self) -> (r: Vec<Request>)
        ensures
            self.starts_with(r@),
    ;

    fn parse(&self, response: Response) -> (r: SpiderResult<Self::Item>)
        ensures
            self.parses(response, r),
    ;

    fn close(&self) {
    }
}

} // verus!
