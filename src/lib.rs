use vstd::prelude::*;

pub mod args;
pub mod cache;
pub mod catalog;
pub mod config;
pub mod errors;
pub mod port;
pub mod processor;
pub mod run;
pub mod steam;
pub mod text;
pub mod version;

pub use steam::parse_steam_args;

verus! {

/// The listing of published runtime versions.
pub const NWJS_URL: &'static str = "https://dl.nwjs.io/";

/// Log levels: errors only, warnings too, everything.
pub const DEBUG_ERROR: u8 = 0;

pub const DEBUG_WARN: u8 = 1;

pub const DEBUG_INFO: u8 = 2;

/// Why the cache directory could not be had.
#[derive(Debug)]
pub enum GeneralErrors {
    /// The name of the current user is unknown or not UTF-8.
    GettingCacheFolderError,
    /// A directory of the cache could not be made; the message says why.
    SettingCacheFolderError(String),
}

/// The cache directory of the user named `user`.
pub open spec fn cache_folder(user: Seq<char>) -> Seq<char> {
    "/home/"@ + user + "/.cache/rpg2linux/"@
}

/// The cache directory of the user named `user`: `/home/<user>/.cache/rpg2linux/`.
pub fn cache_folder_for(user: &str) -> (r: String)
    ensures
        r@ == cache_folder(user@),
{
    let mut r = String::from_str("/home/");
    r.append(user);
    r.append("/.cache/rpg2linux/");
    r
}

} // verus!
