//! What a request needs from the outside: a client that sends it, and hooks
//! that let a configuration touch every request it produces.

use crate::headers::HeaderMap;
use crate::meta::copy_text;
use std::time::Duration;
use vstd::prelude::*;

verus! {

/// A blocking transport: it performs one HTTP exchange and hands back the
/// bytes of the response, or its own error.
///
/// Nothing is promised about what a client does; requests only say what they
/// hand to it.
pub trait HttpClient: Clone + Default {
    /// The error of this client.
    type Error: std::fmt::Display;

    /// Sends `body` with `headers` to `url` by `method`, within `timeout`
    /// where one is given.
    fn send(
        &self,
        method: &str,
        url: &str,
        headers: HeaderMap,
        body: Option<Vec<u8>>,
        timeout: Option<Duration>,
    ) -> Result<Vec<u8>, Self::Error>;
}

/// The client of a builder that was given none: it sends nothing and fails
/// every time.
#[derive(Clone, Copy, Debug, Default, PartialEq, Eq)]
pub struct UnimplementedClient;

/// What `UnimplementedClient` answers.
pub open spec fn no_client_message() -> Seq<char> {
    "No blocking client found."@
}

impl HttpClient for UnimplementedClient {
    type Error = String;

    fn send(
        &self,
        method: &str,
        url: &str,
        headers: HeaderMap,
        body: Option<Vec<u8>>,
        timeout: Option<Duration>,
    ) -> (r: Result<Vec<u8>, String>)
        ensures
            r matches Err(m) && m@ == no_client_message(),
    {
        Err(copy_text("No blocking client found."))
    }
}

/// What every request builder offers to code that does not know the request
/// type: extra headers and a timeout.
pub trait RequestModifier: Sized {
    /// The headers added so far.
    spec fn added_headers(&self) -> Map<Seq<char>, Seq<char>>;

    /// The timeout set so far.
    spec fn chosen_timeout(&self) -> Option<Duration>;

    /// Adds the header `name` with `value`, replacing an earlier header of
    /// that name.
    fn header(self, name: &str, value: &str) -> (r: Self)
        ensures
            r.added_headers() == self.added_headers().insert(name@, value@),
            r.chosen_timeout() == self.chosen_timeout(),
    ;

    /// Sets the timeout of the request.
    fn timeout(self, timeout: Duration) -> (r: Self)
        ensures
            r.added_headers() == self.added_headers(),
            r.chosen_timeout() == Some(timeout),
    ;
}

/// A configuration that touches every request of its client, typically to add
/// authentication headers.
pub trait ConfigureRequest {
    /// Hands back `modifier`, changed as this configuration sees fit.
    fn configure<M: RequestModifier>(&self, modifier: M) -> M;
}

/// Marks a configuration that leaves requests as they are.
pub trait NoRequestConfiguration {

}

impl<T: NoRequestConfiguration> ConfigureRequest for T {
    fn configure<M: RequestModifier>(&self, modifier: M) -> (r: M)
        ensures
            r == modifier,
    {
        modifier
    }
}

} // verus!
