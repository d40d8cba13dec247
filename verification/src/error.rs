use vstd::prelude::*;

verus! {

/// The failure kinds that the update/launch engine reports. Every component
/// operation returns a tagged outcome built from these variants; the payload
/// carries a human-readable description of the underlying fault.
#[derive(Debug)]
pub enum Error {
    Io(String),
    Network(String),
    Json(String),
    Zip(String),
    DatFile(String),
    FileSystem(String),
    Manifest(String),
    Lockfile(String),
    Permission(String),
    Other(String),
    Which(String),
}

/// The text that `Error::message` puts before the payload of each variant.
pub open spec fn error_prefix(e: Error) -> Seq<char> {
    match e {
        Error::Io(_) => "I/O error: "@,
        Error::Network(_) => "Network error: "@,
        Error::Json(_) => "JSON error: "@,
        Error::Zip(_) => "ZIP error: "@,
        Error::DatFile(_) => "DAT file error: "@,
        Error::FileSystem(_) => "File system error: "@,
        Error::Manifest(_) => "Manifest error: "@,
        Error::Lockfile(_) => "Lockfile error: "@,
        Error::Permission(_) => "Permission error: "@,
        Error::Other(_) => ""@,
        Error::Which(_) => "Which error: "@,
    }
}

/// The payload string carried by an error value.
pub open spec fn error_detail(e: Error) -> Seq<char> {
    match e {
        Error::Io(s) => s@,
        Error::Network(s) => s@,
        Error::Json(s) => s@,
        Error::Zip(s) => s@,
        Error::DatFile(s) => s@,
        Error::FileSystem(s) => s@,
        Error::Manifest(s) => s@,
        Error::Lockfile(s) => s@,
        Error::Permission(s) => s@,
        Error::Other(s) => s@,
        Error::Which(s) => s@,
    }
}

impl Error {
    /// The user-visible description: a kind prefix followed by the detail.
    pub fn message(&self) -> (r: String)
        ensures
            r@ == error_prefix(*self) + error_detail(*self),
    {
        let prefix: &str = match self {
            Error::Io(_) => "I/O error: ",
            Error::Network(_) => "Network error: ",
            Error::Json(_) => "JSON error: ",
            Error::Zip(_) => "ZIP error: ",
            Error::DatFile(_) => "DAT file error: ",
            Error::FileSystem(_) => "File system error: ",
            Error::Manifest(_) => "Manifest error: ",
            Error::Lockfile(_) => "Lockfile error: ",
            Error::Permission(_) => "Permission error: ",
            Error::Other(_) => "",
            Error::Which(_) => "Which error: ",
        };
        let detail: &String = match self {
            Error::Io(s) => s,
            Error::Network(s) => s,
            Error::Json(s) => s,
            Error::Zip(s) => s,
            Error::DatFile(s) => s,
            Error::FileSystem(s) => s,
            Error::Manifest(s) => s,
            Error::Lockfile(s) => s,
            Error::Permission(s) => s,
            Error::Other(s) => s,
            Error::Which(s) => s,
        };
        let mut out = prefix.to_owned();
        out.append(detail.as_str());
        out
    }
}

} // verus!
