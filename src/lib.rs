//! A small harness for programming-contest problems: it names the files that
//! hold a problem's sample cases, compares a program's output with the
//! expected output line by line, and tallies the verdicts of a run.

pub mod compare;
pub mod runner;
pub mod store;
pub mod text;
