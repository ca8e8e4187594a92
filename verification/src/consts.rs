//! Names that the server uses.

use vstd::prelude::*;

verus! {

/// The directory in which the collections are kept.
pub const FOLDER_NAME: &'static str = "aginisi";

/// The collection of the accounts.
pub const AUTH_TABLE_NAME: &'static str = "auth";

/// The collection of the sessions.
pub const SESSION_TABLE_NAME: &'static str = "session";

/// The collection that records the uploaded files.
pub const FILE_TABLE_NAME: &'static str = "file";

/// The directory in which uploaded files are kept.
pub const UPLOAD_FOLDER_NAME: &'static str = "uploads";

} // verus!
