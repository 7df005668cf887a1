//! The configuration store as a function of the file state: what
//! `load_config` yields for a present, absent or undecodable file.
//! The file itself is read and written outside; the text that is
//! written comes from [`crate::json::encode_config`].

use vstd::prelude::*;
use crate::config::VpnConfig;
use crate::error::VpnError;
use crate::json::{parse_config, sp_parse_config};

verus! {

/// What `load_config` yields for a file state: an absent file is no
/// record and no error; text that does not decode is a parse error;
/// anything else is the decoded record. Decoding accepts exactly what
/// the save path writes (see [`sp_parse_config`]); a file in another
/// JSON shape is a parse error, which the UI treats as no
/// configuration.
pub fn load_config_from(file: Option<&str>) -> (r: Result<Option<VpnConfig>, VpnError>)
    ensures
        match file {
            None => r == Ok::<Option<VpnConfig>, VpnError>(None),
            Some(text) => match sp_parse_config(text@) {
                Some(m) => r is Ok && r->Ok_0 is Some && r->Ok_0->0@ == m,
                None => r == Err::<Option<VpnConfig>, VpnError>(VpnError::ConfigParse),
            },
        },
{
    match file {
        None => Ok(None),
        Some(text) => match parse_config(text) {
            Some(c) => Ok(Some(c)),
            None => Err(VpnError::ConfigParse),
        },
    }
}

} // verus!
