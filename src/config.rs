use crate::version::NWJS;
use vstd::prelude::*;

verus! {

/// A file that the application expects under other names (the application
/// was made for a case-insensitive file system): each destination is made a
/// link to the origin, relative to the application's directory.
#[derive(Debug, Clone, Default)]
pub struct FileAsociation {
    pub origin_file: String,
    pub destination_files: Vec<String>,
    /// A symbolic link where true, a hard link where false.
    pub allows_symlink: bool,
}

/// How an application is provisioned.
#[derive(Debug, Clone)]
pub struct Config {
    /// Files needed under other names.
    pub file_asociations: Vec<FileAsociation>,
    /// The runtime versions that the application was checked with.
    pub checked_nwjs_versions: Vec<NWJS>,
    /// Shell commands run before provisioning.
    pub pre_operation_commands: Vec<String>,
    /// Shell commands run after provisioning.
    pub post_operation_commands: Vec<String>,
}

impl Config {
    /// A configuration that declares nothing at all.
    pub fn empty() -> (r: Self)
        ensures
            r.file_asociations@.len() == 0,
            r.checked_nwjs_versions@.len() == 0,
            r.pre_operation_commands@.len() == 0,
            r.post_operation_commands@.len() == 0,
    {
        Config {
            file_asociations: Vec::new(),
            checked_nwjs_versions: Vec::new(),
            pre_operation_commands: Vec::new(),
            post_operation_commands: Vec::new(),
        }
    }
}

impl Default for Config {
    /// No associations and no commands; any runtime version (`*.*.*`).
    fn default() -> (r: Self)
        ensures
            r.file_asociations@.len() == 0,
            r.checked_nwjs_versions@.len() == 1,
            r.checked_nwjs_versions@[0].nwjs_version@ == "*.*.*"@,
            r.checked_nwjs_versions@[0].especific_nwjs_commands@.len() == 0,
            r.pre_operation_commands@.len() == 0,
            r.post_operation_commands@.len() == 0,
    {
        let mut checked_nwjs_versions: Vec<NWJS> = Vec::new();
        checked_nwjs_versions.push(NWJS::default());
        Config {
            file_asociations: Vec::new(),
            checked_nwjs_versions,
            pre_operation_commands: Vec::new(),
            post_operation_commands: Vec::new(),
        }
    }
}

} // verus!
