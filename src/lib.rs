//! Session registry and player lifecycle for small code-joinable game lobbies.

pub mod code;
pub mod instance;
pub mod manager;
pub mod player;
pub mod request_data;
pub mod authentication;
mod fresh;
mod rng;
