pub mod cli;
pub mod counter;
pub mod guess;
pub mod laws;
pub mod report;
