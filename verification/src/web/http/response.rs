//! Reading the head of an HTTP response: collecting it, finding where the
//! body starts, and extracting `Content-Length`.

use vstd::prelude::*;
use crate::text::{chars_of, decimal, find_char, find_first, is_digit, is_whitespace, lemma_decimal_digits, lemma_find_first, lemma_first_at, lemma_parse_decimal_roundtrip, parse_decimal, parse_unsigned, trim, trim_bounds, trim_end, trim_start};

verus! {

/// ASCII lower-casing of one character, as `to_ascii_lowercase` does it.
pub open spec fn ascii_lower(c: char) -> char {
    if 'A' <= c && c <= 'Z' {
        ((c as int) + 32) as char
    } else {
        c
    }
}

/// Whether `c` lower-cases to `want`.
fn lowers_to(c: char, want: char) -> (b: bool)
    ensures
        b == (ascii_lower(c) == want),
{
    if 'A' <= c && c <= 'Z' {
        proof {
            assert(((c as int + 32) as char) as int == c as int + 32);
            assert(((want as int) as char) == want);
        }
        (c as u32) + 32 == want as u32
    } else {
        c == want
    }
}

/// `s.to_ascii_lowercase().starts_with(p)`.
pub open spec fn starts_with_lowered(s: Seq<char>, p: Seq<char>) -> bool {
    &&& p.len() <= s.len()
    &&& forall|i: int| 0 <= i < p.len() ==> ascii_lower(#[trigger] s[i]) == p[i]
}

/// `s.split(':').nth(1)`: the text between the first `:` and the next one
/// (or the end).
pub open spec fn second_colon_field(s: Seq<char>) -> Option<Seq<char>> {
    match find_first(s, ':') {
        None => None,
        Some(i) => {
            let rest = s.skip(i + 1);
            Some(
                match find_first(rest, ':') {
                    Some(j) => rest.take(j),
                    None => rest,
                },
            )
        },
    }
}

/// The length a single header line announces: a line that starts with
/// `content-length:` in any ASCII case, whose field after the colon, trimmed,
/// reads as a `usize`.
pub open spec fn line_content_length(line: Seq<char>) -> Option<nat> {
    if starts_with_lowered(line, "content-length:"@) {
        match second_colon_field(line) {
            Some(f) => parse_unsigned(trim(f), usize::MAX as nat),
            None => None,
        }
    } else {
        None
    }
}

/// A line without the `\r` of its `\r\n` ending.
pub open spec fn strip_cr(line: Seq<char>) -> Seq<char> {
    if line.len() > 0 && line.last() == '\r' {
        line.drop_last()
    } else {
        line
    }
}

/// The first length announced by a line of `s`, the lines taken as
/// `str::lines` yields them.
pub open spec fn content_length_in(s: Seq<char>) -> Option<nat>
    decreases s.len(),
{
    if s.len() == 0 {
        None
    } else {
        proof {
            lemma_find_first(s, '\n');
        }
        match find_first(s, '\n') {
            Some(i) => match line_content_length(strip_cr(s.take(i))) {
                Some(v) => Some(v),
                None => content_length_in(s.skip(i + 1)),
            },
            None => line_content_length(s),
        }
    }
}

/// Complete lines that announce no length do not change which length a
/// response announces.
proof fn lemma_content_length_after_lines(x: Seq<char>, y: Seq<char>)
    requires
        x.len() == 0 || x.last() == '\n',
        content_length_in(x) is None,
    ensures
        content_length_in(x + y) == content_length_in(y),
    decreases x.len(),
{
    if x.len() == 0 {
        assert(x + y =~= y);
    } else {
        lemma_find_first(x, '\n');
        let i = find_first(x, '\n')->0;
        let xy = x + y;
        assert forall|j: int| 0 <= j < i implies xy[j] != '\n' by {
            assert(xy[j] == x[j]);
        }
        assert(xy[i] == x[i]);
        lemma_first_at(xy, '\n', i);
        assert(xy.take(i) =~= x.take(i));
        assert(xy.skip(i + 1) =~= x.skip(i + 1) + y);
        let rest = x.skip(i + 1);
        if rest.len() > 0 {
            assert(rest.last() == x.last());
        }
        lemma_content_length_after_lines(rest, y);
    }
}

/// A header line `Content-Length: <n>` announces `n`: after any complete
/// lines that announce no length, such a line is what `content_length`
/// reads, whatever follows it.
pub proof fn lemma_content_length_line(before: Seq<char>, n: nat, after: Seq<char>)
    requires
        before.len() == 0 || before.last() == '\n',
        content_length_in(before) is None,
        n <= usize::MAX,
    ensures
        content_length_in(before + "Content-Length: "@ + decimal(n) + "\r\n"@ + after) == Some(n),
{
    reveal_strlit("Content-Length: ");
    reveal_strlit("content-length:");
    reveal_strlit("\r\n");
    let d = decimal(n);
    lemma_decimal_digits(n);
    let key = "Content-Length: "@;
    let line = key + d;
    let rest = line + "\r\n"@ + after;
    assert(before + "Content-Length: "@ + decimal(n) + "\r\n"@ + after =~= before + rest);
    lemma_content_length_after_lines(before, rest);
    // the line ends at the first newline
    let e: int = line.len() as int + 1;
    assert forall|j: int| 0 <= j < e implies rest[j] != '\n' by {
        if j < key.len() {
            assert(rest[j] == key[j]);
        } else if j < line.len() {
            assert(rest[j] == d[j - key.len()]);
            assert(is_digit(d[j - key.len()]));
        } else {
            assert(rest[j] == '\r');
        }
    }
    assert(rest[e] == '\n');
    lemma_first_at(rest, '\n', e);
    assert(rest.take(e) =~= line.push('\r'));
    assert(strip_cr(rest.take(e)) =~= line);
    // the line starts with the key in any case
    assert(starts_with_lowered(line, "content-length:"@)) by {
        assert forall|i: int| 0 <= i < 15 implies ascii_lower(#[trigger] line[i]) == "content-length:"@[i] by {
            assert(line[i] == key[i]);
        }
    }
    // its field after the colon is the number with a leading space
    assert forall|j: int| 0 <= j < 14 implies line[j] != ':' by {
        assert(line[j] == key[j]);
    }
    lemma_first_at(line, ':', 14);
    let field = line.skip(15);
    assert(field =~= seq![' '] + d);
    assert forall|j: int| 0 <= j < field.len() implies field[j] != ':' by {
        if j > 0 {
            assert(field[j] == d[j - 1]);
            assert(is_digit(d[j - 1]));
        }
    }
    lemma_find_first(field, ':');
    assert(find_first(field, ':') is None) by {
        if let Some(k) = find_first(field, ':') {
            assert(field[k] != ':');
        }
    }
    assert(second_colon_field(line) == Some(field));
    // trimming leaves the number
    assert(field.skip(1) =~= d);
    assert(is_digit(d[0]));
    assert(!is_whitespace(d[0]));
    assert(trim_start(d) == d);
    assert(field[0] == ' ');
    assert(is_whitespace(field[0]));
    assert(trim_start(field) == trim_start(field.skip(1)));
    assert(trim_start(field) == d);
    assert(is_digit(d.last()));
    assert(!is_whitespace(d.last()));
    assert(trim_end(d) == d);
    lemma_parse_decimal_roundtrip(n, usize::MAX as nat);
    assert(line_content_length(line) == Some(n));
}

/// The length announced by the line `s[lo..hi]`, if any.
fn line_length(s: &[char], lo: usize, hi: usize) -> (r: Option<usize>)
    requires
        lo <= hi <= s@.len(),
    ensures
        match line_content_length(s@.subrange(lo as int, hi as int)) {
            Some(v) => r == Some(v as usize),
            None => r is None,
        },
{
    let ghost line = s@.subrange(lo as int, hi as int);
    proof {
        reveal_strlit("content-length:");
    }
    let key = ['c', 'o', 'n', 't', 'e', 'n', 't', '-', 'l', 'e', 'n', 'g', 't', 'h', ':'];
    assert(key@ =~= "content-length:"@);
    if hi - lo < 15 {
        return None;
    }
    let mut k: usize = 0;
    while k < 15
        invariant
            lo + 15 <= hi <= s@.len(),
            line == s@.subrange(lo as int, hi as int),
            key@ == "content-length:"@,
            k <= 15,
            forall|i: int| 0 <= i < k ==> ascii_lower(#[trigger] line[i]) == key@[i],
        decreases 15 - k,
    {
        let c = s[lo + k];
        assert(line[k as int] == c);
        if !lowers_to(c, key[k]) {
            assert(ascii_lower(line[k as int]) != "content-length:"@[k as int]);
            return None;
        }
        k = k + 1;
    }
    assert(starts_with_lowered(line, "content-length:"@));
    proof {
        lemma_find_first(line, ':');
    }
    let first = find_char(s, lo, hi, ':');
    match first {
        None => None,
        Some(i) => {
            let ghost rest = line.skip(i - lo + 1);
            assert(rest =~= s@.subrange(i + 1, hi as int));
            proof {
                lemma_find_first(rest, ':');
            }
            let end = match find_char(s, i + 1, hi, ':') {
                Some(j) => j,
                None => hi,
            };
            assert(s@.subrange(i + 1, end as int) =~= (match find_first(rest, ':') {
                Some(j) => rest.take(j),
                None => rest,
            }));
            let (a, b) = trim_bounds(s, i + 1, end);
            match parse_decimal(s, a, b, usize::MAX as u64) {
                Some(v) => Some(v as usize),
                None => None,
            }
        },
    }
}

/// The `Content-Length` of a response head: the value of the first line
/// that announces one.
pub fn content_length(response: &str) -> (r: Option<usize>)
    ensures
        match content_length_in(response@) {
            Some(v) => r == Some(v as usize),
            None => r is None,
        },
{
    let s = chars_of(response);
    let n = s.len();
    let mut start: usize = 0;
    assert(response@.skip(0) =~= response@);
    while start < n
        invariant
            n == s@.len(),
            s@ == response@,
            start <= n,
            content_length_in(response@) == content_length_in(response@.skip(start as int)),
        decreases n - start,
    {
        let ghost rest = response@.skip(start as int);
        assert(rest =~= s@.subrange(start as int, n as int));
        proof {
            lemma_find_first(rest, '\n');
        }
        match find_char(s.as_slice(), start, n, '\n') {
            Some(e) => {
                let mut line_end = e;
                if line_end > start && s[line_end - 1] == '\r' {
                    line_end = line_end - 1;
                }
                assert(s@.subrange(start as int, line_end as int) =~= strip_cr(rest.take(e - start)));
                let found = line_length(s.as_slice(), start, line_end);
                if found.is_some() {
                    return found;
                }
                assert(rest.skip(e - start + 1) =~= response@.skip(e + 1));
                start = e + 1;
            },
            None => {
                assert(rest =~= s@.subrange(start as int, n as int));
                return line_length(s.as_slice(), start, n);
            },
        }
    }
    assert(response@.skip(start as int) =~= Seq::<char>::empty());
    None
}


/// What `String::from_utf8_lossy` makes of `bytes`: the text they encode,
/// each invalid sequence replaced by U+FFFD.
pub uninterp spec fn utf8_lossy(bytes: Seq<u8>) -> Seq<char>;

/// `String::from_utf8_lossy`, taken as an owned string. Nothing more than
/// its name is claimed of the result: decoding is not restated here.
#[verifier::external_body]
fn decode_utf8_lossy(bytes: &[u8]) -> (s: String)
    ensures
        s@ == utf8_lossy(bytes@),
{
    String::from_utf8_lossy(bytes).into_owned()
}

/// `s` holds an empty line marker: CR LF CR LF somewhere in it.
pub open spec fn has_blank_line(s: Seq<char>) -> bool {
    exists|i: int| 0 <= i && i + 4 <= s.len() && #[trigger] s.subrange(i, i + 4) == "\r\n\r\n"@
}

/// Whether `s` contains CR LF CR LF, as `str::contains("\r\n\r\n")`.
pub fn contains_blank_line(s: &str) -> (b: bool)
    ensures
        b == has_blank_line(s@),
{
    proof {
        reveal_strlit("\r\n\r\n");
    }
    let c = chars_of(s);
    let n = c.len();
    if n < 4 {
        assert forall|i: int| 0 <= i && i + 4 <= s@.len() implies #[trigger] s@.subrange(i, i + 4) != "\r\n\r\n"@ by {}
        return false;
    }
    let mut i: usize = 0;
    while i <= n - 4
        invariant
            n == s@.len(),
            c@ == s@,
            4 <= n,
            i <= n - 3,
            "\r\n\r\n"@ == seq!['\r', '\n', '\r', '\n'],
            forall|j: int| 0 <= j < i ==> #[trigger] s@.subrange(j, j + 4) != "\r\n\r\n"@,
        decreases n - i,
    {
        if c[i] == '\r' && c[i + 1] == '\n' && c[i + 2] == '\r' && c[i + 3] == '\n' {
            assert(s@.subrange(i as int, i + 4) =~= "\r\n\r\n"@);
            return true;
        }
        assert(s@.subrange(i as int, i + 4)[0] == c@[i as int]);
        assert(s@.subrange(i as int, i + 4)[1] == c@[i + 1]);
        assert(s@.subrange(i as int, i + 4)[2] == c@[i + 2]);
        assert(s@.subrange(i as int, i + 4)[3] == c@[i + 3]);
        i = i + 1;
    }
    false
}

/// The head of a response to a HEAD request, collected chunk by chunk.
pub struct HeadResponse {
    response: String,
}

impl HeadResponse {
    /// The text collected so far.
    pub closed spec fn spec_text(&self) -> Seq<char> {
        self.response@
    }

    /// Nothing collected yet.
    pub fn new() -> (r: Self)
        ensures
            r.spec_text() == Seq::<char>::empty(),
    {
        HeadResponse { response: String::new() }
    }

    /// Appends a decoded chunk; answers whether that chunk holds the empty
    /// line that ends the head (then reading stops).
    pub fn push_text(&mut self, chunk: &str) -> (done: bool)
        ensures
            final(self).spec_text() == old(self).spec_text() + chunk@,
            done == has_blank_line(chunk@),
    {
        let done = contains_blank_line(chunk);
        self.response.append(chunk);
        done
    }

    /// Decodes received bytes leniently (invalid UTF-8 becomes U+FFFD) and
    /// appends them as [`Self::push_text`] does.
    pub fn push_bytes(&mut self, bytes: &[u8]) -> (done: bool)
        ensures
            final(self).spec_text() == old(self).spec_text() + utf8_lossy(bytes@),
            done == has_blank_line(utf8_lossy(bytes@)),
    {
        let text = decode_utf8_lossy(bytes);
        self.push_text(text.as_str())
    }

    /// The text collected so far.
    pub fn as_str(&self) -> (s: &str)
        ensures
            s@ == self.spec_text(),
    {
        self.response.as_str()
    }

    /// The announced `Content-Length`, if a line announces one.
    pub fn content_length(&self) -> (r: Option<usize>)
        ensures
            match content_length_in(self.spec_text()) {
                Some(v) => r == Some(v as usize),
                None => r is None,
            },
    {
        content_length(self.response.as_str())
    }
}

/// `pat` occurs in `text` at index `i`.
pub open spec fn occurs_at(text: Seq<u8>, pat: Seq<u8>, i: int) -> bool {
    0 <= i && i + pat.len() <= text.len() && text.subrange(i, i + pat.len()) == pat
}

/// `i` is the first index at which `pat` occurs in `text`.
pub open spec fn is_first_occurrence(text: Seq<u8>, pat: Seq<u8>, i: int) -> bool {
    occurs_at(text, pat, i) && forall|j: int| 0 <= j < i ==> !occurs_at(text, pat, j)
}

/// `twoway::find_bytes`: the index of the first occurrence of `pattern` in
/// `text`, or `None` where it does not occur (an empty pattern occurs at 0).
#[verifier::external_body]
fn find_bytes(text: &[u8], pattern: &[u8]) -> (r: Option<usize>)
    ensures
        match r {
            Some(i) => is_first_occurrence(text@, pattern@, i as int),
            None => forall|i: int| !occurs_at(text@, pattern@, i),
        },
{
    twoway::find_bytes(text, pattern)
}

/// The bytes CR LF CR LF that end a response head.
pub open spec fn blank_line_bytes() -> Seq<u8> {
    seq![13u8, 10u8, 13u8, 10u8]
}

/// Where the body of a response starts in what was read: just after the
/// first CR LF CR LF, if there is one.
pub open spec fn spec_header_end(buf: Seq<u8>, end: Option<usize>) -> bool {
    match end {
        Some(e) => e >= 4 && is_first_occurrence(buf, blank_line_bytes(), e - 4),
        None => forall|i: int| !occurs_at(buf, blank_line_bytes(), i),
    }
}

/// The end of the head is fixed by the bytes read alone: however they were
/// split into chunks, the scanner's record of it is the same.
pub proof fn lemma_header_end_unique(buf: Seq<u8>, e1: Option<usize>, e2: Option<usize>)
    requires
        spec_header_end(buf, e1),
        spec_header_end(buf, e2),
    ensures
        e1 == e2,
{
    match (e1, e2) {
        (Some(a), Some(b)) => {
            if a < b {
                assert(occurs_at(buf, blank_line_bytes(), a - 4));
            } else if b < a {
                assert(occurs_at(buf, blank_line_bytes(), b - 4));
            }
        },
        (Some(a), None) => {
            assert(occurs_at(buf, blank_line_bytes(), a - 4));
        },
        (None, Some(b)) => {
            assert(occurs_at(buf, blank_line_bytes(), b - 4));
        },
        (None, None) => {},
    }
}

/// When the first CR LF CR LF of a response follows `head`, the head ends
/// just after it and the body is what follows.
pub proof fn lemma_body_after_first_blank_line(head: Seq<u8>, body: Seq<u8>)
    requires
        forall|i: int| 0 <= i < head.len() ==> !occurs_at(head + blank_line_bytes() + body, blank_line_bytes(), i),
        head.len() + 4 <= usize::MAX,
    ensures
        spec_header_end(head + blank_line_bytes() + body, Some((head.len() + 4) as usize)),
        (head + blank_line_bytes() + body).subrange(head.len() as int + 4, (head + blank_line_bytes() + body).len() as int) == body,
{
    let buf = head + blank_line_bytes() + body;
    assert(buf.subrange(head.len() as int, head.len() as int + 4) =~= blank_line_bytes());
    assert(buf.subrange(head.len() as int + 4, buf.len() as int) =~= body);
}

/// The start of a response to a GET request, read until its head is
/// complete.
pub struct ResponseHeadScanner {
    buf: Vec<u8>,
    header_end: Option<usize>,
}

impl ResponseHeadScanner {
    /// The bytes read so far.
    pub closed spec fn spec_buffer(&self) -> Seq<u8> {
        self.buf@
    }

    /// Index just after the head, once the head is complete.
    pub closed spec fn spec_header_end(&self) -> Option<usize> {
        self.header_end
    }

    /// The scanner's record of the head's end agrees with its buffer.
    pub open spec fn wf(&self) -> bool {
        spec_header_end(self.spec_buffer(), self.spec_header_end())
    }

    /// Nothing read yet.
    pub fn new() -> (r: Self)
        ensures
            r.wf(),
            r.spec_buffer() == Seq::<u8>::empty(),
            r.spec_header_end() is None,
    {
        ResponseHeadScanner { buf: Vec::new(), header_end: None }
    }

    /// Index just after the head, if the head is complete.
    pub fn header_end(&self) -> (r: Option<usize>)
        ensures
            r == self.spec_header_end(),
    {
        self.header_end
    }

    /// Appends bytes read from the connection and looks for the end of the
    /// head in everything read so far.
    pub fn push(&mut self, chunk: &[u8])
        requires
            old(self).wf(),
        ensures
            final(self).wf(),
            final(self).spec_buffer() == old(self).spec_buffer() + chunk@,
    {
        let ghost old_buf = self.buf@;
        let mut i: usize = 0;
        while i < chunk.len()
            invariant
                i <= chunk@.len(),
                self.buf@ == old_buf + chunk@.take(i as int),
                self.header_end == old(self).header_end,
            decreases chunk@.len() - i,
        {
            self.buf.push(chunk[i]);
            assert(old_buf + chunk@.take(i + 1) =~= old_buf + chunk@.take(i as int) + seq![chunk@[i as int]]);
            i = i + 1;
        }
        assert(chunk@.take(chunk@.len() as int) =~= chunk@);
        let pattern: Vec<u8> = vec![13u8, 10u8, 13u8, 10u8];
        assert(pattern@ =~= blank_line_bytes());
        match find_bytes(self.buf.as_slice(), pattern.as_slice()) {
            Some(pos) => {
                let len = self.buf.len();
                assert(pos + 4 <= len);
                self.header_end = Some(pos + 4);
            },
            None => {
                proof {
                    if let Some(e) = self.header_end {
                        let k = e - 4;
                        assert(self.buf@.subrange(k, k + 4) =~= old_buf.subrange(k, k + 4));
                        assert(occurs_at(self.buf@, blank_line_bytes(), k));
                    }
                }
            },
        }
    }

    /// The body bytes read so far: everything after the head, or nothing
    /// if the head never ended.
    pub fn into_body(self) -> (body: Vec<u8>)
        requires
            self.wf(),
        ensures
            body@ == match self.spec_header_end() {
                Some(e) => self.spec_buffer().subrange(e as int, self.spec_buffer().len() as int),
                None => Seq::<u8>::empty(),
            },
    {
        let mut buf = self.buf;
        let start = match self.header_end {
            Some(e) => e,
            None => buf.len(),
        };
        buf.split_off(start)
    }
}

} // verus!
