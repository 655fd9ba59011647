use vstd::prelude::*;

verus! {

/// Where the server listens and where it keeps its documents and metadata.
#[derive(Debug)]
pub struct Config {
    pub ip: String,
    pub port: u16,
    /// The directory of documents.
    pub pdfdir: String,
    /// Whether a missing document directory is created rather than refused.
    pub createdirs: bool,
    /// Where the metadata store lives.
    pub pdfdb: String,
}

/// The configuration used where none is given.
pub fn defcon() -> (r: Config)
    ensures
        r.ip@ == "127.0.0.1"@,
        r.port == 8000,
        r.pdfdir@ == "./pdfs"@,
        !r.createdirs,
        r.pdfdb@ == "./pdf.db"@,
{
    Config {
        ip: String::from_str("127.0.0.1"),
        port: 8000,
        pdfdir: String::from_str("./pdfs"),
        createdirs: false,
        pdfdb: String::from_str("./pdf.db"),
    }
}

/// What start-up does about the document directory.
#[derive(Debug, PartialEq, Eq, Structural)]
pub enum DirSetup {
    /// Create it, and any missing parent.
    Create,
    /// It is there: use it.
    UseExisting,
}

/// Why the server cannot start.
#[derive(Debug, PartialEq, Eq)]
pub enum ConfigurationError {
    /// The document directory, named here, is absent and is not to be created.
    MissingDirectory(String),
}

/// Decides what to do about the document directory, given whether it exists: create it
/// where the configuration asks for that, else use it where it exists, else refuse.
pub fn pdfdir_setup(config: &Config, exists: bool) -> (r: Result<DirSetup, ConfigurationError>)
    ensures
        config.createdirs ==> r == Ok::<DirSetup, ConfigurationError>(DirSetup::Create),
        !config.createdirs && exists ==> r == Ok::<DirSetup, ConfigurationError>(
            DirSetup::UseExisting,
        ),
        !config.createdirs && !exists ==> (r matches Err(ConfigurationError::MissingDirectory(d))
            && d@ == config.pdfdir@),
{
    if config.createdirs {
        Ok(DirSetup::Create)
    } else if exists {
        Ok(DirSetup::UseExisting)
    } else {
        Err(ConfigurationError::MissingDirectory(config.pdfdir.clone()))
    }
}

} // verus!
