//! Seeded setup generator for a tile-based board game: a reproducible
//! assignment of department tiles to four rows, and the donation and city
//! spaces blocked for reduced player counts.

pub mod building;
pub mod shuffle;
pub mod layout;
pub mod visibility;
pub mod city;
pub mod donation;
pub mod setup;
