//! The text of one notification.

use vstd::prelude::*;
use vstd::string::StrSliceExecFns;

verus! {

#[derive(Debug, Clone)]
pub struct Message {
    body: String,
}

impl View for Message {
    type V = Seq<char>;

    closed spec fn view(&self) -> Seq<char> {
        self.body@
    }
}

impl Message {
    pub fn new(body: &str) -> (r: Self)
        ensures
            r@ == body@,
    {
        Self { body: body.to_owned() }
    }

    pub fn body(&self) -> (r: &String)
        ensures
            r@ == self@,
    {
        &self.body
    }

    /// The message cut to its first `len` characters.
    pub fn truncate(&self, len: usize) -> (r: Self)
        ensures
            r@ == self@.take(if len < self@.len() {
                len as int
            } else {
                self@.len() as int
            }),
    {
        let count = self.body.as_str().unicode_len();
        let keep = if len < count {
            len
        } else {
            count
        };
        let truncated: &str = self.body.as_str().substring_char(0, keep);
        assert(self@.subrange(0, keep as int) =~= self@.take(keep as int));
        Self { body: truncated.to_owned() }
    }
}

} // verus!
