//! A plain error that carries a message.
use vstd::prelude::*;
use vstd::string::StringExecFns;

verus! {

/// An error described by a message alone.
#[derive(Debug)]
pub struct SimpleError {
    message: String,
}

impl View for SimpleError {
    type V = Seq<char>;

    closed spec fn view(&self) -> Seq<char> {
        self.message@
    }
}

impl SimpleError {
    /// An error with the message `message`.
    pub fn new(message: &str) -> (r: SimpleError)
        ensures
            r@ == message@,
    {
        SimpleError { message: String::from_str(message) }
    }

    /// An error that says `message`, then what `child` says, after a colon.
    pub fn wrap(message: &str, child: &SimpleError) -> (r: SimpleError)
        ensures
            r@ == message@ + ": "@ + child@,
    {
        let mut s = String::from_str(message);
        s.append(": ");
        s.append(child.message.as_str());
        SimpleError { message: s }
    }

    /// The message.
    pub fn message(&self) -> (r: &str)
        ensures
            r@ == self@,
    {
        self.message.as_str()
    }
}

} // verus!
