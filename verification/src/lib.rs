//! A minimal DNS responder codec: header and question decoding, answer
//! encoding, and the assembly of a reply datagram.

pub mod rdns;
