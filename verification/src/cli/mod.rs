//! The downloader's command line: its options and the run they drive.

pub mod args_define;

use vstd::prelude::*;
pub use self::args_define::WgetArgs;
use crate::text::{decimal, decimal_string};

verus! {

/// A download as the command line asked for it.
pub struct CLI {
    args: WgetArgs,
}

/// The note logged when the download completes: `下载完成，共下载 <n>B`.
pub open spec fn finished_note(n: nat) -> Seq<char> {
    "下载完成，共下载 "@ + decimal(n) + "B"@
}

impl CLI {
    /// The options this download runs with.
    pub closed spec fn spec_args(&self) -> WgetArgs {
        self.args
    }

    /// A download driven by the parsed command-line options `args`.
    pub fn new(args: WgetArgs) -> (c: Self)
        ensures
            c.spec_args() == args,
    {
        CLI { args }
    }

    /// The command-line options.
    pub fn get_args(&self) -> (a: &WgetArgs)
        ensures
            *a == self.spec_args(),
    {
        &self.args
    }

    /// The note logged once `downloaded` bytes have been saved.
    pub fn finished_note(downloaded: usize) -> (s: String)
        ensures
            s@ == finished_note(downloaded as nat),
    {
        let mut s = String::from_str("下载完成，共下载 ");
        let n = decimal_string(downloaded as u64);
        s.append(n.as_str());
        s.append("B");
        s
    }
}

} // verus!
