pub mod calendar;
pub mod ids;
pub mod money;
pub mod schedule;
pub mod time;
pub mod consumer;
pub mod label;
pub mod media;
