//! The rules of a school election server: who may see and change which rows,
//! which candidates a student may vote for, how a vote is recorded, how votes
//! are counted and cleared, and how a school logs in.
//!
//! Every request handler of the server hands the rows it read to one function
//! here and writes back the rows that function names; the functions' contracts
//! say exactly what they answer, and `laws` states what holds across requests.
pub mod admin;
pub mod auth;
pub mod ballot;
pub mod laws;
pub mod models;
pub mod results;
pub mod rows;
