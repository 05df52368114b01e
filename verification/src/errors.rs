use vstd::prelude::*;

verus! {

/// The library's error value: a human-readable message describing why a
/// resolution or validation step failed.
#[derive(Debug)]
pub struct WeatherVaneError(pub String);

impl WeatherVaneError {
    /// Builds an error from a message.
    pub fn new(message: &str) -> (r: WeatherVaneError)
        ensures
            r.0@ == message@,
    {
        WeatherVaneError(message.to_owned())
    }

    /// The error's message, for display by callers.
    pub fn message(&self) -> (r: &str)
        ensures
            r@ == self.0@,
    {
        self.0.as_str()
    }
}

} // verus!
