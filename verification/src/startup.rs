//! What the service is told when it starts.

use vstd::prelude::*;

verus! {

/// The address under which the service is reached from outside, without a
/// trailing slash. Links in emails are built on it.
#[derive(Debug)]
pub struct ApplicationBaseUrl(pub String);

impl View for ApplicationBaseUrl {
    type V = Seq<char>;

    open spec fn view(&self) -> Seq<char> {
        self.0@
    }
}

impl Clone for ApplicationBaseUrl {
    fn clone(&self) -> (copy: Self)
        ensures
            copy@ == self@,
    {
        ApplicationBaseUrl(self.0.clone())
    }
}

} // verus!
