//! Observations of weather stations: reading them in the forms of their sources, keeping them, and
//! asking them for days, analogs and probabilities.
pub mod text;
pub mod numeral;
pub mod order;
pub mod reading;
pub mod evaluate;
pub mod calendar;
pub mod source;
pub mod domain;
pub mod rows;
pub mod readback;
pub mod json;
pub mod fields;
pub mod metar;
pub mod ncei;
pub mod iem;
pub mod ghcnh;
pub mod nws;
pub mod engine;
pub mod analogs;
pub mod probability;
pub mod paths;
pub mod cache;
pub mod dataset;
pub mod manifest;
pub mod report;
pub mod inspect;
pub mod query;
pub mod fetch;
pub mod cli;
pub mod laws;
