//! Detection pipeline for a three-card in-game augment picker: window
//! geometry for the card capture regions, assembly of recognized text
//! fragments into a title, fuzzy matching of titles against a localized
//! reference dataset, and the state machine that gates the capture loop
//! on live game-state snapshots.

pub mod dataset;
pub mod geometry;
pub mod matcher;
pub mod pipeline;
pub mod text;
pub mod title;
pub mod tracker;
