//! A message logger for a desktop chat shell.
//!
//! One outbound message (a sender, a body and a destination address) is
//! turned into one line of console text. The library computes the text and
//! says exactly what it is; writing it to the process's standard output is
//! left to the program around it, which hands the library a buffer that
//! stands for that stream.

pub mod command;
pub mod message;
pub mod output;
