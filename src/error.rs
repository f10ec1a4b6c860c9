use vstd::prelude::*;

verus! {

/// The error carried on a stream's error channel.
#[derive(Debug)]
pub enum RxError {
    CustomError(String),
}

impl RxError {
    /// The text that the error was built with.
    pub open spec fn message(&self) -> Seq<char> {
        match self {
            RxError::CustomError(err) => err@,
        }
    }

    pub fn description(&self) -> (r: &str)
        ensures
            r@ == self.message(),
    {
        match self {
            RxError::CustomError(err) => err.as_str(),
        }
    }
}

} // verus!
