//! What the library promises as a whole, in terms of what goes in and what comes out.

pub mod configuring;
pub mod decoding;
pub mod editing;
pub mod finding;
pub mod importing;
pub mod naming;
pub mod networks;
pub mod numbers;
pub mod operating;
pub mod polling;
pub mod publishing;
pub mod records;
pub mod reporting;
pub mod rounds;
pub mod scanning;
pub mod showing;
pub mod topics;
pub mod working;
