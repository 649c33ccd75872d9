//! The rules of a garden irrigation daemon: when the valve opens and closes,
//! what is logged, what is reported and what is answered.

pub mod command;
pub mod effects;
pub mod figures;
pub mod flow;
pub mod laws;
pub mod reading;
pub mod schedule;
pub mod scheduler;
pub mod session;
pub mod state;
pub mod target;
pub mod text;
pub mod time;
pub mod valve;
pub mod web;
pub mod wording;
