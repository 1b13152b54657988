//! Plain configuration carriers: which target a schema is materialized to,
//! and the connection or file-system parameters an external executor or
//! persistence layer needs. The library itself opens no connection and
//! touches no file; it only carries these values.

use vstd::prelude::*;

verus! {

/// The supported database-management-system families. Only the dialect
/// identity is consumed here: it selects how datatypes are rendered.
#[derive(Debug, Clone, Copy, PartialEq, Eq, Structural)]
pub enum DbmsType {
    MySQL,
}

/// What an external executor needs to reach a database server. The
/// password is opaque at this layer.
#[derive(Debug, Clone, PartialEq)]
pub struct ConnectionSettings {
    pub target_dbms: DbmsType,
    pub user_name: String,
    pub password: String,
    pub address: String,
}

/// The file formats an external persistence layer may store a schema in.
#[derive(Debug, Clone, Copy, PartialEq, Eq, Structural)]
pub enum FileTypeVdb {
    Yaml,
}

/// The file formats an external persistence layer may store sample
/// datasets in.
#[derive(Debug, Clone, Copy, PartialEq, Eq, Structural)]
pub enum FileTypeDatasets {
    Yaml,
}

/// Where an external persistence layer reads and writes its files.
#[derive(Debug, Clone, PartialEq)]
pub struct FileSystemSettings {
    pub filepath_vdb: String,
    pub filepath_db: String,
    pub filepath_datasets: String,
    pub file_type_vdb: FileTypeVdb,
    pub file_type_datasets: FileTypeDatasets,
}

/// Where a schema is materialized to: a live database server, or a file.
#[derive(Debug, Clone, PartialEq)]
pub enum Target {
    Database(ConnectionSettings),
    File(FileSystemSettings),
}

} // verus!
