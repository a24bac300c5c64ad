use vstd::prelude::*;

verus! {

/// The database file name used when no other is configured.
pub open spec fn spec_default_db_file_name() -> Seq<char> {
    "./DB/main.db"@
}

/// The virtual memory identifier the database file is mounted on by default.
pub const DEFAULT_DB_MOUNT_ID: u8 = 120;

/// What the default configuration holds: the default file name and mount
/// identifier, and the six default pragma settings, in order.
pub open spec fn is_default_config(c: ConnectionConfig) -> bool {
    &&& c.db_file_name@ == spec_default_db_file_name()
    &&& c.db_file_mount_id == Some(DEFAULT_DB_MOUNT_ID)
    &&& c.pragma_settings@.len() == 6
    &&& c.pragma_settings@[0].0@ == "journal_mode"@ && c.pragma_settings@[0].1@ == "PERSIST"@
    &&& c.pragma_settings@[1].0@ == "synchronous"@ && c.pragma_settings@[1].1@ == "OFF"@
    &&& c.pragma_settings@[2].0@ == "locking_mode"@ && c.pragma_settings@[2].1@ == "EXCLUSIVE"@
    &&& c.pragma_settings@[3].0@ == "temp_store"@ && c.pragma_settings@[3].1@ == "MEMORY"@
    &&& c.pragma_settings@[4].0@ == "page_size"@ && c.pragma_settings@[4].1@ == "4096"@
    &&& c.pragma_settings@[5].0@ == "cache_size"@ && c.pragma_settings@[5].1@ == "500000"@
}

/// Configuration applied when a database connection is opened: the file
/// name, the virtual memory the file is mounted on (if any), and the pragma
/// settings to activate right after connecting, as (name, value) pairs.
#[derive(Clone, Debug)]
pub struct ConnectionConfig {
    /// File name of the database.
    pub db_file_name: String,
    /// The identifier of the mounted virtual memory for the database storage.
    pub db_file_mount_id: Option<u8>,
    /// Pragma settings to activate right after connection, in order.
    pub pragma_settings: Vec<(String, String)>,
}

impl ConnectionConfig {
    /// The default configuration.
    pub fn new() -> (r: ConnectionConfig)
        ensures
            is_default_config(r),
    {
        ConnectionConfig::default()
    }
}

impl Default for ConnectionConfig {
    /// The default configuration: the default file name and mount
    /// identifier, a persistent zero-length journal, reduced
    /// synchronization, exclusive locking, in-memory temporary storage, a
    /// 4096-byte page and a large cache.
    fn default() -> (r: ConnectionConfig)
        ensures
            is_default_config(r),
    {
        let mut pragmas: Vec<(String, String)> = Vec::new();
        pragmas.push(("journal_mode".to_owned(), "PERSIST".to_owned()));
        pragmas.push(("synchronous".to_owned(), "OFF".to_owned()));
        pragmas.push(("locking_mode".to_owned(), "EXCLUSIVE".to_owned()));
        pragmas.push(("temp_store".to_owned(), "MEMORY".to_owned()));
        pragmas.push(("page_size".to_owned(), "4096".to_owned()));
        pragmas.push(("cache_size".to_owned(), "500000".to_owned()));
        ConnectionConfig {
            db_file_name: "./DB/main.db".to_owned(),
            db_file_mount_id: Some(DEFAULT_DB_MOUNT_ID),
            pragma_settings: pragmas,
        }
    }
}

} // verus!
