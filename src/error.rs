use vstd::prelude::*;

verus! {

/// Errors of the pipeline that the library can detect itself.
#[derive(Debug)]
pub enum AppError {
    /// Nothing to work on: no minute with data, no session, an empty group.
    NoData { msg: String },
    /// A minute label could not be read as a date and time.
    Chrono { source: chrono::ParseError },
}

} // verus!
