//! A two-player Gin Rummy engine: cards and piles, melds, the turn state
//! machine and the end-of-hand scoring, each with a machine-checked contract.

pub mod card;
pub mod error;
pub mod pile;
pub mod melds;
pub mod player;
pub mod scoring;
pub mod game;
pub mod command;
