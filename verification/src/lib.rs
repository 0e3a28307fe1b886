//! Proportional layout of a timetable: the lessons of each day are ordered,
//! simultaneous lessons are paired, and every day column is cut into regions
//! whose weights are minutes of one shared day window.

pub mod agenda;
pub mod cli;
pub mod color;
pub mod compose;
pub mod config;
pub mod constraints;
pub mod drawing;
pub mod event;
pub mod lesson;
pub mod sort;
pub mod time;
pub mod week;
pub mod window;
