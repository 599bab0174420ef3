//! Core of a deliberately unreliable mock payment gateway and of the theatre booking
//! service that talks to it.

pub mod booking;
pub mod clock;
pub mod dice;
pub mod environment;
pub mod gateway;
pub mod ids;
pub mod json;
pub mod text;
