//! A personal-timetable service core for Stockholm's municipal schools:
//! the upstream login flow's decisions, the typed timetable RPC surface,
//! encrypted credential and session storage, share links over date ranges,
//! and the materialisation of upstream lesson rows into a clean domain
//! model with a calendar rendering.

pub mod agenda;
pub mod ascii85;
pub mod auth;
pub mod class;
pub mod credentials;
pub mod crypt;
pub mod dates;
pub mod error;
pub mod hexs;
pub mod login;
pub mod query;
pub mod schedule;
pub mod scrape;
pub mod session;
pub mod share;
mod strutil;
pub mod tz;

use vstd::prelude::*;

verus! {

/// User agent presented to the upstream on every request.
pub const USER_AGENT: &'static str =
    "Mozilla/5.0 (Macintosh; Intel Mac OS X 10.15; rv:95.0) Gecko/20100101 Firefox/95.0";

/// Upstream system a credential or school belongs to.
#[derive(Debug, Clone, Copy, PartialEq, Eq, Structural)]
pub enum System {
    Skolplattformen,
}

impl System {
    /// Tag byte used when hashing school identifiers.
    pub fn as_u8(&self) -> (r: u8)
        ensures
            r == self.tag(),
    {
        match self {
            System::Skolplattformen => 0,
        }
    }

    /// Tag byte of the system, as the hash input format defines it.
    pub open spec fn tag(&self) -> u8 {
        match self {
            System::Skolplattformen => 0,
        }
    }
}

} // verus!
