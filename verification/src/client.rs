//! The storage access port: the minimal set of filesystem operations
//! the protocol needs, supplied from outside the verified core.

use vstd::prelude::*;

verus! {

/// An I/O failure reported by the storage port.  The port is outside
/// the verified core, so nothing is recorded beyond the fact of the
/// failure; callers attach the path or attribute they were accessing.
#[derive(Debug)]
pub struct PortError;

/// The file operations the protocol routes all its storage access
/// through.  The binary implements it over the real configfs mount;
/// tests implement it over scripted data.  Its methods carry no
/// contracts: the protocol is verified to behave correctly whatever a
/// port returns.
pub trait StoragePort {
    /// Reads the whole contents of the file at `path`.
    fn read_file(&mut self, path: &str) -> Result<Vec<u8>, PortError>;

    /// Writes `data` as the whole contents of the file at `path`,
    /// creating it if absent; the file need not be readable back.
    fn write_file(&mut self, path: &str, data: &[u8]) -> Result<(), PortError>;

    /// Creates a uniquely named directory under `dir` whose name begins
    /// with `prefix`, and returns its full path.
    fn mkdir_temp(&mut self, dir: &str, prefix: &str) -> Result<String, PortError>;

    /// Returns the names of the subdirectories of `dir`, sorted by name.
    fn read_dir(&mut self, dir: &str) -> Result<Vec<String>, PortError>;

    /// Removes the directory tree rooted at `path`.
    fn remove_all(&mut self, path: &str) -> Result<(), PortError>;
}

} // verus!
