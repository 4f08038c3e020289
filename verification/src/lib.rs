//! Sunspec register discovery over Modbus and Telegraf configuration output,
//! with the SHIP hello types of the EEBus experiment.
pub mod deviceinfo;
pub mod model;
pub mod registers;
pub mod report;
pub mod ship;
pub mod sunspec;
pub mod target;
pub mod telegraf;
pub mod text;
pub mod walk;
