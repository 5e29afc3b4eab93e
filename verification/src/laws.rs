//! What holds of the library as a whole: how the results of its operations relate to the values
//! that they are made of, and to each other.
pub mod answers;
pub mod calls;
pub mod chances;
pub mod clock;
pub mod days;
pub mod downloads;
pub mod keeping;
pub mod likeness;
pub mod lists;
pub mod live;
pub mod numbers;
pub mod places;
pub mod records;
pub mod refusals;
pub mod tables;
pub mod texts;
pub mod tokens;
pub mod upkeep;
