//! The command-line options of a download.

use vstd::prelude::*;
use crate::text::find_last;

verus! {

/// The options a download is run with.
#[derive(Debug, Clone)]
pub struct WgetArgs {
    /// URL of the file to download (positional, required).
    pub url: String,
    /// Print debug log lines (`-d`, `--debug`; on by default).
    pub debug: bool,
    /// Name of the saved file (`-O`, `--output-file`).
    pub output_file_name: Option<String>,
    /// Directory the file is saved in (`-P`, `--prefix`).
    pub directory_prefix: Option<String>,
    /// Continue a partial download (`-c`, `--continue`).
    pub continue_download: bool,
}

/// The last `/`-separated segment of a URL, as
/// `url.rsplit('/').next()` gives it: everything after the last `/`, or the
/// whole URL if it has none.
pub open spec fn url_file_name(url: Seq<char>) -> Seq<char> {
    match find_last(url, '/') {
        Some(i) => url.skip(i + 1),
        None => url,
    }
}

impl WgetArgs {
    /// The name the downloaded file is saved under: the `-O` name if one was
    /// given, else the last segment of the URL.
    pub open spec fn spec_file_name(&self) -> Seq<char> {
        match self.output_file_name {
            Some(name) => name@,
            None => url_file_name(self.url@),
        }
    }

    /// The URL to download.
    pub fn get_url(&self) -> (u: &str)
        ensures
            u@ == self.url@,
    {
        self.url.as_str()
    }

    /// The `-O` file name, if one was given.
    pub fn get_output_file_name(&self) -> (r: Option<&str>)
        ensures
            match self.output_file_name {
                Some(name) => r matches Some(s) && s@ == name@,
                None => r is None,
            },
    {
        match &self.output_file_name {
            Some(name) => Some(name.as_str()),
            None => None,
        }
    }

    /// The name the downloaded file is saved under.
    pub fn file_name(&self) -> (s: String)
        ensures
            s@ == self.spec_file_name(),
    {
        match &self.output_file_name {
            Some(name) => name.clone(),
            None => {
                let chars = crate::text::chars_of(self.url.as_str());
                let n = chars.len();
                proof {
                    crate::text::lemma_find_last(self.url@, '/');
                    assert(chars@.subrange(0, n as int) =~= self.url@);
                }
                match crate::text::find_last_char(chars.as_slice(), 0, n, '/') {
                    Some(i) => String::from_str(self.url.as_str().substring_char(i + 1, n)),
                    None => self.url.clone(),
                }
            },
        }
    }
}

/// A name taken from the URL never holds a `/`: it is the text after the
/// URL's last `/`, and it ends the URL.
pub proof fn lemma_url_file_name_has_no_slash(url: Seq<char>)
    ensures
        !url_file_name(url).contains('/'),
        url_file_name(url).len() <= url.len(),
        url.subrange(url.len() - url_file_name(url).len(), url.len() as int) == url_file_name(url),
{
    crate::text::lemma_find_last(url, '/');
    let name = url_file_name(url);
    match find_last(url, '/') {
        Some(i) => {
            assert forall|k: int| 0 <= k < name.len() implies name[k] != '/' by {
                assert(name[k] == url[i + 1 + k]);
            }
            assert(url.subrange(url.len() - name.len(), url.len() as int) =~= name);
        },
        None => {
            assert(url.subrange(0, url.len() as int) =~= url);
        },
    }
}

/// Without `-O`, the file is named by the whole text after the URL's last
/// `/`: for every URL `prefix/name` whose `name` holds no `/`, the name is
/// exactly `name`, however `prefix` looks.
pub proof fn lemma_url_file_name_is_last_segment(prefix: Seq<char>, name: Seq<char>)
    requires
        !name.contains('/'),
    ensures
        url_file_name(prefix + seq!['/'] + name) == name,
{
    let url = prefix + seq!['/'] + name;
    let k = prefix.len() as int;
    crate::text::lemma_find_last(url, '/');
    assert(url[k] == '/');
    match find_last(url, '/') {
        Some(i) => {
            if i > k {
                assert(url[i] == name[i - k - 1]);
                assert(name.contains('/'));
            }
            if i < k {
                assert(url[k] != '/');
            }
            assert(url.skip(k + 1) =~= name);
        },
        None => {
            assert(url[k] != '/');
        },
    }
}

/// Without `-O`, a URL holding no `/` names the file by the whole URL.
pub proof fn lemma_url_file_name_without_slash(url: Seq<char>)
    requires
        !url.contains('/'),
    ensures
        url_file_name(url) == url,
{
    crate::text::lemma_find_last(url, '/');
    if let Some(i) = find_last(url, '/') {
        assert(url.contains('/'));
    }
}

} // verus!
