//! The configuration of the viewer, read from environment variables.
use vstd::prelude::*;

verus! {

pub struct Config {
    pub persisted_data_path: String,
    pub rpc_hostname: String,
    pub fullscreen: bool,
}

/// A byte lowered as `make_ascii_lowercase` lowers it.
pub open spec fn ascii_lower(b: u8) -> u8 {
    if 0x41 <= b <= 0x5a {
        (b + 32) as u8
    } else {
        b
    }
}

/// The value, ignoring ASCII case, is one of "0", "false", "no" and "n".
pub open spec fn disables(bytes: Seq<u8>) -> bool {
    let l = |i: int| ascii_lower(bytes[i]);
    ||| bytes.len() == 1 && (l(0) == 0x30 || l(0) == 0x6e)
    ||| bytes.len() == 2 && l(0) == 0x6e && l(1) == 0x6f
    ||| bytes.len() == 5 && l(0) == 0x66 && l(1) == 0x61 && l(2) == 0x6c && l(3) == 0x73 && l(4) == 0x65
}

fn lower(b: u8) -> (r: u8)
    ensures
        r == ascii_lower(b),
{
    if 0x41 <= b && b <= 0x5a {
        b + 32
    } else {
        b
    }
}

/// The path of the persisted data: the value of `PERSISTED_DATA_PATH`, or "persisted_data".
pub fn persisted_data_path(var: Option<String>) -> (s: String)
    ensures
        s@ == match var {
            Some(v) => v@,
            None => "persisted_data"@,
        },
{
    match var {
        Some(v) => v,
        None => "persisted_data".to_owned(),
    }
}

/// The RPC endpoint: the value of `RPC_HOST`, or "ws://localhost:1234".
pub fn rpc_hostname(var: Option<String>) -> (s: String)
    ensures
        s@ == match var {
            Some(v) => v@,
            None => "ws://localhost:1234"@,
        },
{
    match var {
        Some(v) => v,
        None => "ws://localhost:1234".to_owned(),
    }
}

/// Whether to go fullscreen, from the value of `FULLSCREEN`: yes unless it is set to "0",
/// "false", "no" or "n", ignoring ASCII case.
pub fn fullscreen_enabled(var: Option<String>) -> (r: bool)
    ensures
        r == match var {
            Some(v) => !disables(vstd::utf8::encode_utf8(v@)),
            None => true,
        },
{
    let v = match var {
        Some(v) => v,
        None => return true,
    };
    let b = v.as_str().as_bytes();
    if b.len() == 1 {
        let c0 = lower(b[0]);
        !(c0 == 0x30 || c0 == 0x6e)
    } else if b.len() == 2 {
        let c0 = lower(b[0]);
        let c1 = lower(b[1]);
        !(c0 == 0x6e && c1 == 0x6f)
    } else if b.len() == 5 {
        let c0 = lower(b[0]);
        let c1 = lower(b[1]);
        let c2 = lower(b[2]);
        let c3 = lower(b[3]);
        let c4 = lower(b[4]);
        !(c0 == 0x66 && c1 == 0x61 && c2 == 0x6c && c3 == 0x73 && c4 == 0x65)
    } else {
        true
    }
}

impl Config {
    /// The configuration from the values of the environment variables `PERSISTED_DATA_PATH`,
    /// `RPC_HOST` and `FULLSCREEN` (`None` where one is not set).
    pub fn from_vars(
        persisted_data_path_var: Option<String>,
        rpc_host_var: Option<String>,
        fullscreen_var: Option<String>,
    ) -> (c: Config)
        ensures
            c.persisted_data_path@ == match persisted_data_path_var {
                Some(v) => v@,
                None => "persisted_data"@,
            },
            c.rpc_hostname@ == match rpc_host_var {
                Some(v) => v@,
                None => "ws://localhost:1234"@,
            },
            c.fullscreen == match fullscreen_var {
                Some(v) => !disables(vstd::utf8::encode_utf8(v@)),
                None => true,
            },
    {
        Config {
            persisted_data_path: persisted_data_path(persisted_data_path_var),
            rpc_hostname: rpc_hostname(rpc_host_var),
            fullscreen: fullscreen_enabled(fullscreen_var),
        }
    }
}

} // verus!
