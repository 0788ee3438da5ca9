//! Delivery of notifications to a webhook endpoint.

use crate::notifier::Message;
use vstd::prelude::*;

verus! {

/// Posts each notification to `endpoint`, cut to `truncate` characters when
/// that is set.
pub struct IFTTTWebhook {
    endpoint: String,
    truncate: Option<usize>,
}

impl View for IFTTTWebhook {
    /// Endpoint and the character limit, if any.
    type V = (Seq<char>, Option<usize>);

    closed spec fn view(&self) -> (Seq<char>, Option<usize>) {
        (self.endpoint@, self.truncate)
    }
}

impl IFTTTWebhook {
    pub fn new(endpoint: &str, truncate: Option<usize>) -> (r: Self)
        ensures
            r@ == (endpoint@, truncate),
    {
        Self { endpoint: endpoint.to_owned(), truncate }
    }

    pub fn endpoint(&self) -> (r: &String)
        ensures
            r@ == self@.0,
    {
        &self.endpoint
    }

    /// The text posted for `message`: cut to the limit when there is one.
    pub fn body_for(&self, message: &Message) -> (r: String)
        ensures
            r@ == match self@.1 {
                Some(len) => message@.take(if len < message@.len() {
                    len as int
                } else {
                    message@.len() as int
                }),
                None => message@,
            },
    {
        match self.truncate {
            Some(len) => message.truncate(len).body().clone(),
            None => message.body().clone(),
        }
    }
}

} // verus!
