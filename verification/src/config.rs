//! The persisted configuration record: portal, username, optional
//! password and the two optional feature switches, with their defaults.

use vstd::prelude::*;

verus! {

/// The single configuration record the application persists.
pub struct VpnConfig {
    pub portal: String,
    pub username: String,
    pub password: Option<String>,
    pub notifications_enabled: Option<bool>,
    pub auto_connect: Option<bool>,
}

/// Mathematical model of a configuration record: the string fields as
/// character sequences.
#[verifier::ext_equal]
pub struct ConfigModel {
    pub portal: Seq<char>,
    pub username: Seq<char>,
    pub password: Option<Seq<char>>,
    pub notifications_enabled: Option<bool>,
    pub auto_connect: Option<bool>,
}

impl View for VpnConfig {
    type V = ConfigModel;

    open spec fn view(&self) -> ConfigModel {
        ConfigModel {
            portal: self.portal@,
            username: self.username@,
            password: match self.password {
                Some(p) => Some(p@),
                None => None,
            },
            notifications_enabled: self.notifications_enabled,
            auto_connect: self.auto_connect,
        }
    }
}

/// Whether notifications are on: the record's switch when present,
/// `true` when the switch or the whole record is absent.
pub open spec fn spec_notifications_on(c: Option<VpnConfig>) -> bool {
    match c {
        Some(cfg) => match cfg.notifications_enabled {
            Some(b) => b,
            None => true,
        },
        None => true,
    }
}

/// The portal name a notification body should carry: the record's
/// portal when a record exists, `None` otherwise.
pub open spec fn spec_portal_of(c: Option<VpnConfig>) -> Option<Seq<char>> {
    match c {
        Some(cfg) => Some(cfg.portal@),
        None => None,
    }
}

/// Evaluates the notification switch with its default.
pub fn notifications_on(c: &Option<VpnConfig>) -> (r: bool)
    ensures
        r == spec_notifications_on(*c),
{
    match c {
        Some(cfg) => match cfg.notifications_enabled {
            Some(b) => b,
            None => true,
        },
        None => true,
    }
}

} // verus!
