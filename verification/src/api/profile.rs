//! The profile payload of the session endpoint, as plain data.

use vstd::prelude::*;

use super::Url;

verus! {

/// A player's skin: its texture location, model type, and optional cape.
#[derive(Debug)]
pub struct Skin {
    /// Skin URL
    pub url: Url,
    /// Player model type
    pub model: Model,
    /// Optional cape URL
    pub cape: Option<Url>,
}

/// Skin model type.
#[derive(Debug, Clone, Copy, PartialEq, Eq, Structural)]
pub enum Model {
    /// The slim player model
    Slim,
    /// The original player model
    Normal,
}

/// The profile endpoint for the player with the given canonical identifier.
pub fn profile_url(id: &str) -> (r: String)
    ensures
        r@ == "https://sessionserver.mojang.com/session/minecraft/profile/"@ + id@,
{
    let mut r = String::from_str("https://sessionserver.mojang.com/session/minecraft/profile/");
    r.append(id);
    r
}

} // verus!
