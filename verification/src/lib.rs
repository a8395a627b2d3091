//! Verified core of a Minecraft-speedrunning chat bot: the thunder-cycle
//! probability engine (cycle overlap, Monte Carlo odds counting, first-overlap
//! sampling), tick-based time formatting, and exact binomial coefficients.
//!
//! All quantities are in game ticks: 20 ticks to a second, 1200 to a minute.

pub mod math;
pub mod rng;
pub mod thunder;
pub mod timefmt;
