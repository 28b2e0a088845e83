//! The one-time startup decision for the database file's location. The
//! caller checks the filesystem and hands in plain facts; the rule itself
//! is decided here.

use vstd::prelude::*;

verus! {

/// The legacy database path under the user's home directory.
pub fn legacy_db_path(home: &str) -> (r: String)
    ensures
        r@ == home@ + "/.echo-daily/echo-daily.db"@,
{
    let mut out = home.to_owned();
    out.append("/.echo-daily/echo-daily.db");
    out
}

/// The chosen database path: the legacy home path is preferred when it
/// already exists as a file, else the file lives in the managed data
/// directory.
pub fn resolve_db_path(home: Option<&str>, legacy_is_file: bool, app_data_dir: &str) -> (r:
    String)
    ensures
        r@ == (if home is Some && legacy_is_file {
            home->0@ + "/.echo-daily/echo-daily.db"@
        } else {
            app_data_dir@ + "/echo-daily.db"@
        }),
{
    if legacy_is_file {
        if let Some(h) = home {
            return legacy_db_path(h);
        }
    }
    let mut out = app_data_dir.to_owned();
    out.append("/echo-daily.db");
    out
}

} // verus!
