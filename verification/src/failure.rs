//! Errors as chains of messages, the outermost first.

use crate::text::views;
use vstd::prelude::*;

verus! {

/// Why something failed: a message, and behind it the messages of what caused
/// it.
#[derive(Debug)]
pub struct Failure {
    pub chain: Vec<String>,
}

impl View for Failure {
    type V = Seq<Seq<char>>;

    open spec fn view(&self) -> Seq<Seq<char>> {
        views(self.chain@)
    }
}

impl Failure {
    /// A failure without a cause.
    pub fn new(message: String) -> (r: Failure)
        ensures
            r@ == seq![message@],
    {
        let mut chain: Vec<String> = Vec::new();
        chain.push(message);
        let r = Failure { chain };
        assert(r@ =~= seq![message@]);
        r
    }

    /// A failure with one cause.
    pub fn caused(message: String, cause: String) -> (r: Failure)
        ensures
            r@ == seq![message@, cause@],
    {
        let mut chain: Vec<String> = Vec::new();
        chain.push(message);
        chain.push(cause);
        let r = Failure { chain };
        assert(r@ =~= seq![message@, cause@]);
        r
    }

    /// The failure as the cause of another message.
    pub fn context(self, message: String) -> (r: Failure)
        ensures
            r@ == seq![message@] + self@,
    {
        let ghost before = self@;
        let mut chain = self.chain;
        chain.insert(0, message);
        let r = Failure { chain };
        assert(r@ =~= seq![message@] + before);
        r
    }

    /// The outermost message.
    pub fn message(&self) -> (r: String)
        ensures
            self@.len() > 0 ==> r@ == self@[0],
            self@.len() == 0 ==> r@.len() == 0,
    {
        if self.chain.len() > 0 {
            self.chain[0].clone()
        } else {
            String::new()
        }
    }
}

} // verus!
