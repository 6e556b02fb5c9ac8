//! Deciding how the destination file is opened, and counting the bytes
//! written to it.

use vstd::prelude::*;
use crate::text::{decimal, decimal_string};

verus! {

/// How the destination file is opened.
#[derive(PartialEq, Eq, Structural)]
pub enum OpenMode {
    /// Open the existing file for appending and continue after its bytes.
    Append,
    /// Create the file (truncating nothing: it does not exist, or the
    /// download is asked to continue one that does not exist yet).
    Create,
}

/// Why a download cannot start.
#[derive(PartialEq, Eq, Structural)]
pub enum PrepareError {
    /// The destination path is a directory.
    IsADirectory,
    /// The local file already holds the whole resource.
    AlreadyComplete,
    /// The file exists and continuing was not asked for: it is not
    /// overwritten.
    AlreadyExists,
}

/// The decision table of a download's start: a directory is refused; an
/// existing file is continued with `-c` and refused without it; a missing
/// file is created.
pub open spec fn spec_open_mode(continue_download: bool, exists: bool, is_dir: bool) -> Result<OpenMode, PrepareError> {
    if exists && is_dir {
        Err(PrepareError::IsADirectory)
    } else if continue_download && exists {
        Ok(OpenMode::Append)
    } else if !exists {
        Ok(OpenMode::Create)
    } else {
        Err(PrepareError::AlreadyExists)
    }
}

/// Decides how to open the destination from the `-c` flag and what is at
/// its path.
pub fn choose_open_mode(continue_download: bool, exists: bool, is_dir: bool) -> (r: Result<OpenMode, PrepareError>)
    ensures
        r == spec_open_mode(continue_download, exists, is_dir),
{
    if exists && is_dir {
        return Err(PrepareError::IsADirectory);
    }
    match (continue_download, exists) {
        (true, true) => Ok(OpenMode::Append),
        (true, false) => Ok(OpenMode::Create),
        (false, false) => Ok(OpenMode::Create),
        (false, true) => Err(PrepareError::AlreadyExists),
    }
}

/// Where a continued download resumes: after the bytes already on disk,
/// unless they are already the whole file.
pub fn resume_offset(current_size: usize, file_length: usize) -> (r: Result<usize, PrepareError>)
    ensures
        current_size >= file_length ==> r == Err::<usize, PrepareError>(PrepareError::AlreadyComplete),
        current_size < file_length ==> r == Ok::<usize, PrepareError>(current_size),
{
    if current_size >= file_length {
        Err(PrepareError::AlreadyComplete)
    } else {
        Ok(current_size)
    }
}

/// The note printed when a continued download resumes.
pub open spec fn resume_note(offset: nat) -> Seq<char> {
    "检测到本地文件，从 "@ + decimal(offset) + " 字节处继续下载"@
}

/// The note printed when a download starts afresh: `-c` was given but no
/// file existed, or no `-c` was given.
pub open spec fn fresh_note(continue_download: bool) -> Seq<char> {
    if continue_download {
        "本地文件不存在，开始全新下载"@
    } else {
        "开始全新下载"@
    }
}

/// The text of a refusal; `path` is the destination as displayed.
pub open spec fn refusal_text(e: PrepareError, path: Seq<char>) -> Seq<char> {
    match e {
        PrepareError::IsADirectory => "目标路径是目录: "@ + path,
        PrepareError::AlreadyComplete => "本地文件已完整，无需继续下载"@,
        PrepareError::AlreadyExists => "文件已存在，使用 -c 选项进行断点续传，或删除现有文件"@,
    }
}

/// The note printed when a continued download resumes at `offset`.
pub fn resume_notice(offset: usize) -> (s: String)
    ensures
        s@ == resume_note(offset as nat),
{
    let mut s = String::from_str("检测到本地文件，从 ");
    let n = decimal_string(offset as u64);
    s.append(n.as_str());
    s.append(" 字节处继续下载");
    s
}

/// The note printed when a download starts afresh.
pub fn fresh_notice(continue_download: bool) -> (s: String)
    ensures
        s@ == fresh_note(continue_download),
{
    if continue_download {
        String::from_str("本地文件不存在，开始全新下载")
    } else {
        String::from_str("开始全新下载")
    }
}

impl PrepareError {
    /// The message of this refusal for the destination displayed as `path`.
    pub fn message(&self, path: &str) -> (s: String)
        ensures
            s@ == refusal_text(*self, path@),
    {
        match self {
            PrepareError::IsADirectory => {
                let mut s = String::from_str("目标路径是目录: ");
                s.append(path);
                s
            },
            PrepareError::AlreadyComplete => String::from_str("本地文件已完整，无需继续下载"),
            PrepareError::AlreadyExists => String::from_str("文件已存在，使用 -c 选项进行断点续传，或删除现有文件"),
        }
    }
}

/// Progress of writing a download: where it started in the file and how
/// many bytes have been written since.
pub struct DownloadProgress {
    offset: usize,
    total_written: usize,
}

impl DownloadProgress {
    /// Where writing started in the file.
    pub closed spec fn spec_offset(&self) -> nat {
        self.offset as nat
    }

    /// Bytes written since the start.
    pub closed spec fn spec_written(&self) -> nat {
        self.total_written as nat
    }

    /// Writing starts at `offset`, nothing written yet.
    pub fn new(offset: usize) -> (p: Self)
        ensures
            p.spec_offset() == offset,
            p.spec_written() == 0,
    {
        DownloadProgress { offset, total_written: 0 }
    }

    /// Where in the file writing starts.
    pub fn offset(&self) -> (o: usize)
        ensures
            o == self.spec_offset(),
    {
        self.offset
    }

    /// Bytes written so far.
    pub fn total_written(&self) -> (n: usize)
        ensures
            n == self.spec_written(),
    {
        self.total_written
    }

    /// Records `n` more bytes written; returns the position in the file
    /// that writing has reached.
    pub fn record(&mut self, n: usize) -> (position: usize)
        requires
            old(self).spec_offset() + old(self).spec_written() + n <= usize::MAX,
        ensures
            final(self).spec_offset() == old(self).spec_offset(),
            final(self).spec_written() == old(self).spec_written() + n,
            position == final(self).spec_offset() + final(self).spec_written(),
    {
        self.total_written = self.total_written + n;
        self.offset + self.total_written
    }
}

} // verus!

verus! {

/// A file that exists is never created afresh: it is continued only when
/// `-c` was given, and refused otherwise; a directory is always refused.
pub proof fn lemma_existing_file_is_not_overwritten(continue_download: bool, exists: bool, is_dir: bool)
    ensures
        spec_open_mode(continue_download, exists, is_dir) == Ok::<OpenMode, PrepareError>(OpenMode::Create) ==> !exists,
        spec_open_mode(continue_download, exists, is_dir) == Ok::<OpenMode, PrepareError>(OpenMode::Append) ==> continue_download && exists && !is_dir,
        exists && !continue_download ==> spec_open_mode(continue_download, exists, is_dir) is Err,
        exists && is_dir ==> spec_open_mode(continue_download, exists, is_dir) == Err::<OpenMode, PrepareError>(PrepareError::IsADirectory),
{
}

} // verus!
