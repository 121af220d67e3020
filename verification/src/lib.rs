//! Decision core of an intraday trading engine.

pub mod book;
pub mod calendar;
pub mod clock;
pub mod conditions;
pub mod container;
pub mod doc;
pub mod engine;
pub mod entries;
pub mod exits;
pub mod filters;
pub mod flow;
pub mod freeze;
pub mod gate;
pub mod keep;
pub mod limits;
pub mod master;
pub mod model;
pub mod num;
pub mod options;
pub mod order;
pub mod orders;
pub mod pass;
pub mod readout;
pub mod reconcile;
pub mod report;
pub mod routing;
pub mod rules;
pub mod runset;
pub mod scan;
pub mod scanner;
pub mod scrip;
pub mod sides;
pub mod swing;
pub mod text;
pub mod textmap;
pub mod verdict;
