//! The start-up checks on the service's secrets: it refuses to start
//! without them or with ones that are too short.
use vstd::prelude::*;
use vstd::string::*;
use vstd::utf8::encode_utf8;

use crate::text::{chars_of, trim, trim_range};

verus! {

broadcast use vstd::string::group_string_axioms;

/// Why the service refuses to start.
#[derive(Clone, Copy, Debug, PartialEq, Eq, Structural)]
pub enum ConfigError {
    /// `JWT_SECRET` is not set.
    MissingJwtSecret,
    /// `JWT_SECRET` has fewer than 32 bytes once trimmed.
    ShortJwtSecret,
    /// `ADMIN_PASS` is not set.
    MissingAdminPass,
    /// `ADMIN_PASS` has fewer than 8 bytes once trimmed.
    ShortAdminPass,
    /// `VIEWER_PASS` is not set.
    MissingViewerPass,
    /// `VIEWER_PASS` has fewer than 8 bytes once trimmed.
    ShortViewerPass,
    /// `PROM_TOKEN` is not set.
    MissingPromToken,
}

/// The UTF-8 length of the text once trimmed, as `str::len` reports it.
pub open spec fn trimmed_len(s: Seq<char>) -> usize {
    encode_utf8(trim(s)).len() as usize
}

/// The byte length of `s` once whitespace is trimmed from both ends.
pub fn trimmed_byte_len(s: &str) -> (n: usize)
    ensures
        n == trimmed_len(s@),
{
    let v = chars_of(s);
    let (lo, hi) = trim_range(&v, 0, v.len());
    assert(v@.subrange(0, v.len() as int) == v@);
    let t = s.substring_char(lo, hi);
    t.len()
}

/// What start-up makes of the secrets it read: the first missing or too
/// short one, in the order JWT secret, admin password, viewer password,
/// scrape token.
pub open spec fn config_outcome(
    jwt_secret: Option<Seq<char>>,
    admin_pass: Option<Seq<char>>,
    viewer_pass: Option<Seq<char>>,
    prom_token: Option<Seq<char>>,
) -> Result<(), ConfigError> {
    match jwt_secret {
        None => Err(ConfigError::MissingJwtSecret),
        Some(j) => if trimmed_len(j) < 32 {
            Err(ConfigError::ShortJwtSecret)
        } else {
            match admin_pass {
                None => Err(ConfigError::MissingAdminPass),
                Some(a) => if trimmed_len(a) < 8 {
                    Err(ConfigError::ShortAdminPass)
                } else {
                    match viewer_pass {
                        None => Err(ConfigError::MissingViewerPass),
                        Some(v) => if trimmed_len(v) < 8 {
                            Err(ConfigError::ShortViewerPass)
                        } else {
                            match prom_token {
                                None => Err(ConfigError::MissingPromToken),
                                Some(_) => Ok(()),
                            }
                        },
                    }
                },
            }
        },
    }
}

/// The characters of an optional string slice.
pub open spec fn opt_text(o: Option<&str>) -> Option<Seq<char>> {
    match o {
        Some(s) => Some(s@),
        None => None,
    }
}

/// Checks the secrets the service starts with (each as read from the
/// environment, `None` when unset).
pub fn check_startup_config(
    jwt_secret: Option<&str>,
    admin_pass: Option<&str>,
    viewer_pass: Option<&str>,
    prom_token: Option<&str>,
) -> (r: Result<(), ConfigError>)
    ensures
        r == config_outcome(opt_text(jwt_secret), opt_text(admin_pass), opt_text(viewer_pass), opt_text(prom_token)),
{
    let j = match jwt_secret {
        None => return Err(ConfigError::MissingJwtSecret),
        Some(j) => j,
    };
    if trimmed_byte_len(j) < 32 {
        return Err(ConfigError::ShortJwtSecret);
    }
    let a = match admin_pass {
        None => return Err(ConfigError::MissingAdminPass),
        Some(a) => a,
    };
    if trimmed_byte_len(a) < 8 {
        return Err(ConfigError::ShortAdminPass);
    }
    let v = match viewer_pass {
        None => return Err(ConfigError::MissingViewerPass),
        Some(v) => v,
    };
    if trimmed_byte_len(v) < 8 {
        return Err(ConfigError::ShortViewerPass);
    }
    match prom_token {
        None => Err(ConfigError::MissingPromToken),
        Some(_) => Ok(()),
    }
}

} // verus!
