//! The storage hierarchy: flip-flop-backed registers and the RAM banks built
//! from them, eight of the next-smaller unit at every level.

pub mod register;
pub mod banks;
pub mod ram8;
pub mod ram64;
pub mod ram512;
pub mod ram4k;
pub mod ram16k;
