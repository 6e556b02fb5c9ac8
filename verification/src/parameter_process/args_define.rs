//! The options of the first, minimal front end: a URL, the debug switch
//! and an output file name.

use vstd::prelude::*;

verus! {

/// The options a download is run with.
#[derive(Debug)]
pub struct WgetArgs {
    /// URL of the file to download (positional, required).
    pub url: String,
    /// Print debug log lines (`-d`, `--debug`; on by default).
    pub debug: bool,
    /// Name of the saved file (`-O`, `--output-file`).
    pub output_file_name: Option<String>,
}

impl WgetArgs {
    /// The URL to download.
    pub fn get_url(&self) -> (u: &str)
        ensures
            u@ == self.url@,
    {
        self.url.as_str()
    }

    /// The `-O` file name, if one was given.
    pub fn get_output_file_name(&self) -> (r: Option<&str>)
        ensures
            match self.output_file_name {
                Some(name) => r matches Some(s) && s@ == name@,
                None => r is None,
            },
    {
        match &self.output_file_name {
            Some(name) => Some(name.as_str()),
            None => None,
        }
    }
}

} // verus!
