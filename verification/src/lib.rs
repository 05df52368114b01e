use vstd::prelude::*;

pub mod cache;
pub mod config;
pub mod did;
pub mod diddoc;
pub mod engine;
pub mod errors;
pub mod identity;
pub mod keys;
pub mod resolve;
pub mod text;
pub mod worker;

pub use errors::WeatherVaneError;

verus! {

/// The hints a query string may carry for prefilling the lookup form.
pub struct FormHints {
    pub query: Option<String>,
}

} // verus!
