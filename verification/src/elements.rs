pub mod calc;
pub mod calculator;
pub mod command;
pub mod job;
pub mod pipeline;
pub mod script;
pub mod subword;
pub mod value;
pub mod word;
