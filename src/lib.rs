//! Control layer of a chess worker: opening-book records and weighted
//! selection, castling notation correction, time budgeting, request decoding
//! and the decisions of a search session.

mod text;

pub mod book;


pub mod castling;
pub mod request;
pub mod session;


pub mod square;
pub mod time;

