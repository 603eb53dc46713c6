//! Physure: dimensional analysis with exact rational exponents, the command-line
//! front end's text handling, and the process settings of the engine.

pub mod text;
pub mod words;
pub mod rational;
pub mod assoc;
pub mod units;
pub mod error;
pub mod settings;
pub mod uncertainty;
pub mod cli;
pub mod plotting;
pub mod equation;
pub mod covariance;
pub mod symbolic;
