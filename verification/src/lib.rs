//! The verified core of a Discord bot that links Discord users to their
//! Minecraft names and keeps them in step with a Wynncraft guild.
use vstd::prelude::*;

pub mod guildconfig;
pub mod handler;
pub mod membership;
pub mod namedb;
pub mod structs;
pub mod sync;
pub mod text;
pub mod updater;
pub mod wynnapi;

verus! {

} // verus!
