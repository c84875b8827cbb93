use vstd::prelude::*;

verus! {

/// Possible outcome of the call of a request on a proxy.
#[derive(Debug, PartialEq, Eq)]
pub enum RequestResult<T> {
    /// The message has been buffered and will be sent to the server.
    Sent(T),
    /// The proxy is already destroyed; the request has been ignored.
    Destroyed,
}

impl<T> RequestResult<T> {
    /// Whether the request was buffered for transmission.
    pub fn is_sent(&self) -> (b: bool)
        ensures
            b == (*self is Sent),
    {
        match self {
            RequestResult::Sent(_) => true,
            RequestResult::Destroyed => false,
        }
    }

    /// Unwraps the value carried by a request that was sent.
    ///
    /// The caller vouches that the request was not dropped; `error` names
    /// the expectation for the reader of the call site.
    pub fn expect(self, error: &str) -> (v: T)
        requires
            self is Sent,
        ensures
            self == RequestResult::Sent(v),
    {
        match self {
            RequestResult::Sent(v) => v,
            RequestResult::Destroyed => vstd::pervasive::unreached(),
        }
    }
}

} // verus!
