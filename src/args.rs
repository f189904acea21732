use vstd::prelude::*;

verus! {

/// The command line: one subcommand and its arguments.
#[derive(Debug)]
pub struct Cli {
    pub args: PngMeArgs,
}

/// The subcommands.
#[derive(Debug)]
pub enum PngMeArgs {
    Encode(EncodeArgs),
    Decode(DecodeArgs),
    Remove(RemoveArgs),
    Print(PrintArgs),
}

/// Encode a message into a PNG file.
#[derive(Debug)]
pub struct EncodeArgs {
    pub file_path: String,
    pub chunk_type: String,
    pub message: String,
    pub output_file: Option<String>,
}

impl EncodeArgs {
    /// Where the encoded file goes: the output file when one is given, else
    /// the input file itself.
    pub fn output_path(&self) -> (r: &String)
        ensures
            r@ == (match self.output_file {
                Some(p) => p@,
                None => self.file_path@,
            }),
    {
        match &self.output_file {
            Some(p) => p,
            None => &self.file_path,
        }
    }
}

/// Decode a message stored in a PNG file.
#[derive(Debug)]
pub struct DecodeArgs {
    pub file_path: String,
    pub chunk_type: String,
}

/// Remove a message from a PNG file.
#[derive(Debug)]
pub struct RemoveArgs {
    pub file_path: String,
    pub chunk_type: String,
}

/// Print a list of the chunks of a PNG file.
#[derive(Debug)]
pub struct PrintArgs {
    pub file_path: String,
}

} // verus!
