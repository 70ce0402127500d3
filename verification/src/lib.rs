//! Finds the stretch of a chapter-tagged video file that holds a verse.
//!
//! A video file of one Bible chapter carries one chapter mark per verse, titled like
//! `John 3:16`. [`probe::Root`] holds these marks in the order of the file and resolves a
//! verse argument, a label such as `16` or a range such as `16-17`, to the start and end time
//! between which the file is to be cut. [`resolve`] states what every lookup returns, over
//! plain sequences, and proves what follows from it.

pub mod errors;
pub mod output;
pub mod pattern;
pub mod probe;
pub mod resolve;
pub mod text;
pub mod titles;
pub mod token;
