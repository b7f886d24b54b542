use vstd::prelude::*;
use vstd::string::StringExecFns;

verus! {

/// The errors that saving and loading can report.
#[derive(Debug)]
#[must_use]
pub enum SavefileError {
    /// The schema stored in a file does not match the one in memory.
    IncompatibleSchema { message: String },
    /// The input ended before deserialization was complete.
    UnexpectedEndOfFile {},
    /// Reading or writing the underlying storage failed.
    IOError { io_error: std::io::Error },
    /// The input holds bytes that do not decode (such as a string that is not UTF-8).
    DataCorruption { msg: String },
    /// Memory could not be allocated.
    OutOfMemory { err: String },
    /// A memory layout could not be specified for an allocation.
    MemoryAllocationLayoutError,
}

impl SavefileError {
    /// The error's message, as it is displayed.
    pub fn message(&self) -> (r: String)
        ensures
            match self {
                SavefileError::IncompatibleSchema { message } => r@
                    == "Incompatible schema detected: "@ + message@,
                SavefileError::UnexpectedEndOfFile {  } => r@
                    == "Input stream ended before deserialization was complete."@,
                SavefileError::IOError { .. } => "IO Error: "@.is_prefix_of(r@),
                SavefileError::DataCorruption { msg } => r@ == "DataCorruption error "@ + msg@,
                SavefileError::OutOfMemory { err } => r@ == "Out of memory: "@ + err@,
                SavefileError::MemoryAllocationLayoutError => r@
                    == "Memory allocation failed because memory layout could not be specified."@,
            },
    {
        match self {
            SavefileError::IncompatibleSchema { message } => String::from_str(
                "Incompatible schema detected: ",
            ).concat(message.as_str()),
            SavefileError::UnexpectedEndOfFile {  } => String::from_str(
                "Input stream ended before deserialization was complete.",
            ),
            SavefileError::IOError { io_error } => {
                let text = io_error.to_string();
                let r = String::from_str("IO Error: ").concat(text.as_str());
                assert(r@.subrange(0, "IO Error: "@.len() as int) =~= "IO Error: "@);
                r
            },
            SavefileError::DataCorruption { msg } => String::from_str("DataCorruption error ").concat(
                msg.as_str(),
            ),
            SavefileError::OutOfMemory { err } => String::from_str("Out of memory: ").concat(
                err.as_str(),
            ),
            SavefileError::MemoryAllocationLayoutError => String::from_str(
                "Memory allocation failed because memory layout could not be specified.",
            ),
        }
    }
}

/// `std::io::Error`, carried opaquely by [`SavefileError::IOError`].
#[verifier::external_type_specification]
#[verifier::external_body]
pub struct ExIoError(std::io::Error);

impl From<std::io::Error> for SavefileError {
    fn from(s: std::io::Error) -> (r: SavefileError) {
        SavefileError::IOError { io_error: s }
    }
}

impl vstd::std_specs::convert::FromSpecImpl<std::io::Error> for SavefileError {
    open spec fn obeys_from_spec() -> bool {
        true
    }

    open spec fn from_spec(s: std::io::Error) -> SavefileError {
        SavefileError::IOError { io_error: s }
    }
}

} // verus!
