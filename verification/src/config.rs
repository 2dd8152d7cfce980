//! Which configuration file the database options come from.

use vstd::prelude::*;

verus! {

/// The configuration file used when `DB_OPTION_FILE` is not set.
pub const DEFAULT_CONFIG_FILE: &'static str = "DbOption";

/// The configuration file name: the value of `DB_OPTION_FILE` when it is set
/// (passed in as `from_env`), `DbOption` otherwise.
pub fn config_file_name(from_env: Option<String>) -> (r: String)
    ensures
        from_env matches Some(v) ==> r@ == v@,
        from_env is None ==> r@ == DEFAULT_CONFIG_FILE@,
{
    match from_env {
        Some(v) => v,
        None => String::from_str(DEFAULT_CONFIG_FILE),
    }
}

} // verus!
