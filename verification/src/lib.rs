//! Verified core of the `lxp` LetterXpress client.

pub mod text;
pub mod lxpconfig;
pub mod lxptypes;
pub mod submissions;
pub mod lxpapi;
pub mod lxpcommands;
pub mod clidef;
pub mod logger;
pub mod documents;
pub mod delivery;
