//! The command-line argument surface: which action to run and with which
//! paths and optional key. The binary around the library parses its
//! arguments into these plain values.
use vstd::prelude::*;

verus! {

/// What the user asked for.
pub enum Actions {
    /// Embed a file's bytes in an image.
    Encode(EncodeArgs),
    /// Extract the bytes embedded in an image.
    Decode(DecodeArgs),
    /// Report how many bytes an image can store.
    Calculate(CalculateArgs),
}

/// Arguments of the encode action.
pub struct EncodeArgs {
    /// The key to encrypt the data, if any.
    pub key: Option<String>,
    /// The image to be used for storage.
    pub image_path: String,
    /// The input file to read.
    pub infile: String,
    /// The output file to write.
    pub outfile: String,
}

/// Arguments of the decode action.
pub struct DecodeArgs {
    /// The key to decrypt the data, if any.
    pub key: Option<String>,
    /// The input file to read.
    pub infile: String,
    /// The output file to write.
    pub outfile: String,
}

/// Arguments of the capacity action.
pub struct CalculateArgs {
    /// The image to be used for storage.
    pub image_path: String,
}

/// A parsed command line: the action to run.
pub struct Command {
    /// The action to run.
    pub action: Actions,
}

} // verus!
