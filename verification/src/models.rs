use vstd::prelude::*;

verus! {

/// Startup configuration: the paths of the files to share and the password
/// that gates access to them.
pub struct Args {
    /// User-supplied path strings, before canonicalization.
    pub paths: Vec<String>,
    /// The shared password.
    pub password: String,
}

/// One canonical path together with the file size observed by the caller
/// when it resolved the path.
pub struct ResolvedFile {
    /// Canonical absolute path, as the raw bytes of its operating-system form.
    pub path: Vec<u8>,
    /// Size of the file in bytes.
    pub size: u64,
}

/// Catalog entry for one shared file, immutable for the process lifetime.
#[derive(Debug)]
pub struct FileInfo {
    /// Deterministic identity of the file, derived from its canonical path.
    pub uuid: u128,
    /// Final path component, as text.
    pub file_name: String,
    /// Size of the file in bytes, cached at startup.
    pub file_size: u64,
    /// Canonical absolute path, as raw bytes.
    pub file_path: Vec<u8>,
}

/// Mathematical model of a catalog entry.
pub struct FileInfoModel {
    pub uuid: u128,
    pub file_name: Seq<char>,
    pub file_size: u64,
    pub file_path: Seq<u8>,
}

impl View for FileInfo {
    type V = FileInfoModel;

    open spec fn view(&self) -> FileInfoModel {
        FileInfoModel {
            uuid: self.uuid,
            file_name: self.file_name@,
            file_size: self.file_size,
            file_path: self.file_path@,
        }
    }
}

/// Read-only state shared by every request handler: the catalog, the
/// configured password, and the process-lifetime session token.
pub struct AppState {
    pub metadata: Vec<FileInfo>,
    pub password: String,
    pub auth_token: String,
}

/// The decoded body of a login request.
pub struct LoginPayload {
    pub password: String,
}

} // verus!
