//! HTTP request messages and their wire text.

use vstd::prelude::*;

verus! {

/// An HTTP request method.
pub enum HttpMethod {
    /// Requests a representation of the resource (since HTTP/0.9).
    GET,
    /// Submits data to be processed by the resource (since HTTP/1.0).
    POST,
    /// Like GET, but the response carries no body (since HTTP/1.0).
    HEAD,
    /// Replaces the resource with the request payload (since HTTP/1.1).
    PUT,
    /// Deletes the resource (since HTTP/1.1).
    DELETE,
    /// Opens a tunnel to the server of the resource (since HTTP/1.1).
    CONNECT,
    /// Describes the communication options of the resource (since HTTP/1.1).
    OPTIONS,
    /// Loops the request back along the path to the resource (since HTTP/1.1).
    TRACE,
    /// Applies a partial modification to the resource (since HTTP/1.1).
    PATCH,
}

/// An HTTP protocol version.
pub enum HttpProtocolVersion {
    Http09,
    Http10,
    Http11,
    Http20,
    Http30,
}

/// The token of a method on the request line.
pub open spec fn method_name(m: HttpMethod) -> Seq<char> {
    match m {
        HttpMethod::GET => "GET"@,
        HttpMethod::POST => "POST"@,
        HttpMethod::HEAD => "HEAD"@,
        HttpMethod::PUT => "PUT"@,
        HttpMethod::DELETE => "DELETE"@,
        HttpMethod::CONNECT => "CONNECT"@,
        HttpMethod::OPTIONS => "OPTIONS"@,
        HttpMethod::TRACE => "TRACE"@,
        HttpMethod::PATCH => "PATCH"@,
    }
}

/// The token of a protocol version on the request line.
pub open spec fn version_name(v: HttpProtocolVersion) -> Seq<char> {
    match v {
        HttpProtocolVersion::Http09 => "HTTP/0.9"@,
        HttpProtocolVersion::Http10 => "HTTP/1.0"@,
        HttpProtocolVersion::Http11 => "HTTP/1.1"@,
        HttpProtocolVersion::Http20 => "HTTP/2.0"@,
        HttpProtocolVersion::Http30 => "HTTP/3.0"@,
    }
}

impl HttpMethod {
    /// The method's token, e.g. `"GET"`.
    pub fn to_string(&self) -> (s: String)
        ensures
            s@ == method_name(*self),
    {
        let t = match self {
            HttpMethod::GET => "GET",
            HttpMethod::POST => "POST",
            HttpMethod::HEAD => "HEAD",
            HttpMethod::PUT => "PUT",
            HttpMethod::DELETE => "DELETE",
            HttpMethod::CONNECT => "CONNECT",
            HttpMethod::OPTIONS => "OPTIONS",
            HttpMethod::TRACE => "TRACE",
            HttpMethod::PATCH => "PATCH",
        };
        String::from_str(t)
    }
}

impl HttpProtocolVersion {
    /// The version's token, e.g. `"HTTP/1.1"`.
    pub fn to_string(&self) -> (s: String)
        ensures
            s@ == version_name(*self),
    {
        let t = match self {
            HttpProtocolVersion::Http09 => "HTTP/0.9",
            HttpProtocolVersion::Http10 => "HTTP/1.0",
            HttpProtocolVersion::Http11 => "HTTP/1.1",
            HttpProtocolVersion::Http20 => "HTTP/2.0",
            HttpProtocolVersion::Http30 => "HTTP/3.0",
        };
        String::from_str(t)
    }
}

/// One header field of a request.
#[derive(Clone)]
pub struct HttpHeaderField {
    pub field_name: String,
    pub field_value: String,
}

/// `name: value`, the text of a header field without its line end.
pub open spec fn field_text(f: HttpHeaderField) -> Seq<char> {
    f.field_name@ + ": "@ + f.field_value@
}

/// The header block: each field's text followed by CRLF, in order.
pub open spec fn header_block(fields: Seq<HttpHeaderField>) -> Seq<char>
    decreases fields.len(),
{
    if fields.len() == 0 {
        Seq::empty()
    } else {
        header_block(fields.drop_last()) + field_text(fields.last()) + "\r\n"@
    }
}

/// The full text of a request: request line, header block, blank line.
pub open spec fn request_text(
    m: HttpMethod,
    path: Seq<char>,
    v: HttpProtocolVersion,
    fields: Seq<HttpHeaderField>,
) -> Seq<char> {
    method_name(m) + " "@ + path + " "@ + version_name(v) + "\r\n"@ + header_block(fields) + "\r\n"@
}

impl HttpHeaderField {
    pub fn new(name: String, value: String) -> (f: Self)
        ensures
            f.field_name == name,
            f.field_value == value,
    {
        Self { field_name: name, field_value: value }
    }

    /// The field as `name: value`.
    pub fn to_string(&self) -> (s: String)
        ensures
            s@ == field_text(*self),
    {
        let mut s = self.field_name.clone();
        s.append(": ");
        s.append(self.field_value.as_str());
        s
    }
}

/// The ordered header fields of a request.
pub struct HttpRequestHeader {
    fields: Vec<HttpHeaderField>,
}

impl HttpRequestHeader {
    /// The fields, in sending order.
    pub closed spec fn spec_fields(&self) -> Seq<HttpHeaderField> {
        self.fields@
    }

    /// The header block: every field as `name: value` followed by CRLF.
    pub fn to_string(&self) -> (s: String)
        ensures
            s@ == header_block(self.spec_fields()),
    {
        let mut s = String::new();
        let n = self.fields.len();
        let mut i: usize = 0;
        while i < n
            invariant
                n == self.fields@.len(),
                i <= n,
                s@ == header_block(self.fields@.take(i as int)),
            decreases n - i,
        {
            let line = self.fields[i].to_string();
            s.append(line.as_str());
            s.append("\r\n");
            assert(self.fields@.take(i + 1).drop_last() =~= self.fields@.take(i as int));
            i = i + 1;
        }
        assert(self.fields@.take(n as int) =~= self.fields@);
        s
    }
}

/// A request under construction: method, target path, version and header
/// fields.
pub struct HttpRequestNew<'a> {
    method: HttpMethod,
    path_to_file: &'a str,
    protocol_version: HttpProtocolVersion,
    request_header: HttpRequestHeader,
}

impl<'a> HttpRequestNew<'a> {
    pub closed spec fn spec_method(&self) -> HttpMethod {
        self.method
    }

    pub closed spec fn spec_path(&self) -> Seq<char> {
        self.path_to_file@
    }

    pub closed spec fn spec_version(&self) -> HttpProtocolVersion {
        self.protocol_version
    }

    pub closed spec fn spec_fields(&self) -> Seq<HttpHeaderField> {
        self.request_header.fields@
    }

    /// The text this request is sent as.
    pub open spec fn spec_text(&self) -> Seq<char> {
        request_text(self.spec_method(), self.spec_path(), self.spec_version(), self.spec_fields())
    }

    /// A request with the given method, path, version and header fields.
    pub fn new(
        method: HttpMethod,
        path: &'a str,
        protocol_version: HttpProtocolVersion,
        headers: Vec<HttpHeaderField>,
    ) -> (r: Self)
        ensures
            r.spec_method() == method,
            r.spec_path() == path@,
            r.spec_version() == protocol_version,
            r.spec_fields() == headers@,
    {
        Self {
            method,
            path_to_file: path,
            protocol_version,
            request_header: HttpRequestHeader { fields: headers },
        }
    }

    /// An HTTP/1.1 GET request.
    pub fn get(path: &'a str, headers: Vec<HttpHeaderField>) -> (r: Self)
        ensures
            r.spec_method() == HttpMethod::GET,
            r.spec_path() == path@,
            r.spec_version() == HttpProtocolVersion::Http11,
            r.spec_fields() == headers@,
    {
        Self::new(HttpMethod::GET, path, HttpProtocolVersion::Http11, headers)
    }

    /// An HTTP/1.1 POST request.
    pub fn post(path: &'a str, headers: Vec<HttpHeaderField>) -> (r: Self)
        ensures
            r.spec_method() == HttpMethod::POST,
            r.spec_path() == path@,
            r.spec_version() == HttpProtocolVersion::Http11,
            r.spec_fields() == headers@,
    {
        Self::new(HttpMethod::POST, path, HttpProtocolVersion::Http11, headers)
    }

    /// An HTTP/1.1 HEAD request.
    pub fn head(path: &'a str, headers: Vec<HttpHeaderField>) -> (r: Self)
        ensures
            r.spec_method() == HttpMethod::HEAD,
            r.spec_path() == path@,
            r.spec_version() == HttpProtocolVersion::Http11,
            r.spec_fields() == headers@,
    {
        Self::new(HttpMethod::HEAD, path, HttpProtocolVersion::Http11, headers)
    }

    /// Appends the header field `name: value` after the present ones.
    pub fn add_header(&mut self, name: String, value: String)
        ensures
            final(self).spec_method() == old(self).spec_method(),
            final(self).spec_path() == old(self).spec_path(),
            final(self).spec_version() == old(self).spec_version(),
            final(self).spec_fields() == old(self).spec_fields().push(
                HttpHeaderField { field_name: name, field_value: value },
            ),
    {
        self.request_header.fields.push(HttpHeaderField { field_name: name, field_value: value });
    }

    /// The request's wire text: `METHOD path VERSION` CRLF, the header
    /// block, and an empty line.
    pub fn to_string(&self) -> (s: String)
        ensures
            s@ == self.spec_text(),
    {
        let mut s = self.method.to_string();
        s.append(" ");
        s.append(self.path_to_file);
        s.append(" ");
        let v = self.protocol_version.to_string();
        s.append(v.as_str());
        s.append("\r\n");
        let h = self.request_header.to_string();
        s.append(h.as_str());
        s.append("\r\n");
        s
    }
}

/// Every request text ends with an empty line: its last four characters are
/// CR LF CR LF, whatever the method, path, version and header fields.
pub proof fn lemma_request_ends_with_blank_line(
    m: HttpMethod,
    path: Seq<char>,
    v: HttpProtocolVersion,
    fields: Seq<HttpHeaderField>,
)
    ensures
        request_text(m, path, v, fields).len() >= 4,
        request_text(m, path, v, fields).subrange(
            request_text(m, path, v, fields).len() - 4,
            request_text(m, path, v, fields).len() as int,
        ) == "\r\n\r\n"@,
{
    reveal_strlit("\r\n");
    reveal_strlit("\r\n\r\n");
    let t = request_text(m, path, v, fields);
    if fields.len() == 0 {
        assert(header_block(fields) =~= Seq::<char>::empty());
    }
    let before = method_name(m) + " "@ + path + " "@ + version_name(v) + "\r\n"@ + header_block(fields);
    assert(before.len() >= 2);
    assert(before.subrange(before.len() - 2, before.len() as int) =~= "\r\n"@) by {
        if fields.len() > 0 {
            let b = header_block(fields);
            assert(b == header_block(fields.drop_last()) + field_text(fields.last()) + "\r\n"@);
            assert(before.subrange(before.len() - 2, before.len() as int) =~= b.subrange(b.len() - 2, b.len() as int));
        }
    }
    assert(t == before + "\r\n"@);
    assert(t.subrange(t.len() - 4, t.len() as int) =~= "\r\n\r\n"@);
}

/// Adding a header field puts its line just before the closing empty line
/// and leaves the rest of the text as it was.
pub proof fn lemma_add_header_text(
    m: HttpMethod,
    path: Seq<char>,
    v: HttpProtocolVersion,
    fields: Seq<HttpHeaderField>,
    f: HttpHeaderField,
)
    ensures
        request_text(m, path, v, fields.push(f)) == request_text(m, path, v, fields).take(
            request_text(m, path, v, fields).len() - 2,
        ) + field_text(f) + "\r\n"@ + "\r\n"@,
{
    reveal_strlit("\r\n");
    let head = method_name(m) + " "@ + path + " "@ + version_name(v) + "\r\n"@;
    assert(fields.push(f).drop_last() =~= fields);
    assert(header_block(fields.push(f)) == header_block(fields) + field_text(f) + "\r\n"@);
    let t = request_text(m, path, v, fields);
    assert(t == head + header_block(fields) + "\r\n"@);
    assert(t.take(t.len() - 2) =~= head + header_block(fields));
    assert(request_text(m, path, v, fields.push(f)) =~= head + header_block(fields) + field_text(f) + "\r\n"@ + "\r\n"@);
}

/// A request whose header text is already rendered.
pub enum HttpRequest<'a> {
    GET { path: &'a str, protocol_version: HttpProtocolVersion, request_head: &'a str },
    POST { path: &'a str, protocol_version: HttpProtocolVersion, request_head: &'a str },
    HEAD { path: &'a str, protocol_version: HttpProtocolVersion, request_head: &'a str },
}

/// `METHOD path VERSION` CRLF, the rendered head, then two CRLFs.
pub open spec fn rendered_request_text(
    method: Seq<char>,
    path: Seq<char>,
    v: HttpProtocolVersion,
    head: Seq<char>,
) -> Seq<char> {
    method + " "@ + path + " "@ + version_name(v) + "\r\n"@ + head + "\r\n\r\n"@
}

impl<'a> HttpRequest<'a> {
    /// The text this request is sent as.
    pub open spec fn spec_text(&self) -> Seq<char> {
        match *self {
            HttpRequest::GET { path, protocol_version, request_head } =>
                rendered_request_text("GET"@, path@, protocol_version, request_head@),
            HttpRequest::POST { path, protocol_version, request_head } =>
                rendered_request_text("POST"@, path@, protocol_version, request_head@),
            HttpRequest::HEAD { path, protocol_version, request_head } =>
                rendered_request_text("HEAD"@, path@, protocol_version, request_head@),
        }
    }

    /// The request's wire text.
    pub fn to_string(&self) -> (s: String)
        ensures
            s@ == self.spec_text(),
    {
        let (m, path, version, head) = match self {
            HttpRequest::GET { path, protocol_version, request_head } =>
                ("GET", path, protocol_version, request_head),
            HttpRequest::POST { path, protocol_version, request_head } =>
                ("POST", path, protocol_version, request_head),
            HttpRequest::HEAD { path, protocol_version, request_head } =>
                ("HEAD", path, protocol_version, request_head),
        };
        let mut s = String::from_str(m);
        s.append(" ");
        s.append(*path);
        s.append(" ");
        let v = version.to_string();
        s.append(v.as_str());
        s.append("\r\n");
        s.append(*head);
        s.append("\r\n\r\n");
        s
    }
}

/// A rendered request carries its method, path, version and head unchanged,
/// each in its place: `method`, a space, the path, a space, the version's
/// token, CR LF, the head, then CR LF CR LF; nothing else.
pub proof fn lemma_rendered_request_layout(
    method: Seq<char>,
    path: Seq<char>,
    v: HttpProtocolVersion,
    head: Seq<char>,
)
    ensures
        ({
            let t = rendered_request_text(method, path, v, head);
            let m = method.len() as int;
            let p = path.len() as int;
            let vn = version_name(v).len() as int;
            let h = head.len() as int;
            &&& t.len() == m + p + vn + h + 8
            &&& t.take(m) == method
            &&& t[m] == ' '
            &&& t.subrange(m + 1, m + 1 + p) == path
            &&& t[m + 1 + p] == ' '
            &&& t.subrange(m + 2 + p, m + 2 + p + vn) == version_name(v)
            &&& t.subrange(m + 2 + p + vn, m + 4 + p + vn) == seq!['\r', '\n']
            &&& t.subrange(m + 4 + p + vn, m + 4 + p + vn + h) == head
            &&& t.skip(m + 4 + p + vn + h) == seq!['\r', '\n', '\r', '\n']
        }),
{
    reveal_strlit(" ");
    reveal_strlit("\r\n");
    reveal_strlit("\r\n\r\n");
    let t = rendered_request_text(method, path, v, head);
    let m = method.len() as int;
    let p = path.len() as int;
    let vn = version_name(v).len() as int;
    let h = head.len() as int;
    assert(t.take(m) =~= method);
    assert(t.subrange(m + 1, m + 1 + p) =~= path);
    assert(t.subrange(m + 2 + p, m + 2 + p + vn) =~= version_name(v));
    assert(t.subrange(m + 2 + p + vn, m + 4 + p + vn) =~= seq!['\r', '\n']);
    assert(t.subrange(m + 4 + p + vn, m + 4 + p + vn + h) =~= head);
    assert(t.skip(m + 4 + p + vn + h) =~= seq!['\r', '\n', '\r', '\n']);
}

/// A header field's text is its whole name, `: `, and its whole value.
pub proof fn lemma_field_text_layout(f: HttpHeaderField)
    ensures
        field_text(f).len() == f.field_name@.len() + 2 + f.field_value@.len(),
        field_text(f).take(f.field_name@.len() as int) == f.field_name@,
        field_text(f).subrange(f.field_name@.len() as int, f.field_name@.len() as int + 2) == seq![':', ' '],
        field_text(f).skip(f.field_name@.len() as int + 2) == f.field_value@,
{
    reveal_strlit(": ");
    let n = f.field_name@.len() as int;
    assert(field_text(f).take(n) =~= f.field_name@);
    assert(field_text(f).subrange(n, n + 2) =~= seq![':', ' ']);
    assert(field_text(f).skip(n + 2) =~= f.field_value@);
}

/// The header block of two runs of fields is the block of the first run
/// followed by the block of the second.
pub proof fn lemma_header_block_append(a: Seq<HttpHeaderField>, b: Seq<HttpHeaderField>)
    ensures
        header_block(a + b) == header_block(a) + header_block(b),
    decreases b.len(),
{
    if b.len() == 0 {
        assert(a + b =~= a);
        assert(header_block(b) =~= Seq::<char>::empty());
        assert(header_block(a) + header_block(b) =~= header_block(a));
    } else {
        lemma_header_block_append(a, b.drop_last());
        assert((a + b).drop_last() =~= a + b.drop_last());
        assert((a + b).last() == b.last());
        assert(header_block(a + b) =~= header_block(a) + header_block(b));
    }
}

/// Every field of a request is written in full on its own line of the
/// header block: after the lines of the fields before it come its name,
/// `: `, its whole value and CR LF.
pub proof fn lemma_header_block_holds_field(fields: Seq<HttpHeaderField>, k: int)
    requires
        0 <= k < fields.len(),
    ensures
        ({
            let o = header_block(fields.take(k)).len() as int;
            let f = fields[k];
            let n = f.field_name@.len() as int;
            let v = f.field_value@.len() as int;
            &&& header_block(fields).len() >= o + n + v + 4
            &&& header_block(fields).subrange(o, o + n) == f.field_name@
            &&& header_block(fields).subrange(o + n, o + n + 2) == seq![':', ' ']
            &&& header_block(fields).subrange(o + n + 2, o + n + 2 + v) == f.field_value@
            &&& header_block(fields).subrange(o + n + 2 + v, o + n + 4 + v) == seq!['\r', '\n']
        }),
{
    reveal_strlit("\r\n");
    let f = fields[k];
    let first = fields.take(k);
    let one = seq![f];
    let last = fields.skip(k + 1);
    assert(fields =~= first + one + last);
    lemma_header_block_append(first + one, last);
    lemma_header_block_append(first, one);
    assert(one.drop_last() =~= Seq::<HttpHeaderField>::empty());
    assert(header_block(Seq::<HttpHeaderField>::empty()) =~= Seq::<char>::empty());
    assert(header_block(one) =~= field_text(f) + "\r\n"@);
    lemma_field_text_layout(f);
    let b = header_block(fields);
    let o = header_block(first).len() as int;
    let n = f.field_name@.len() as int;
    let v = f.field_value@.len() as int;
    assert(b == header_block(first) + (field_text(f) + "\r\n"@) + header_block(last));
    assert(b.subrange(o, o + n) =~= field_text(f).take(n));
    assert(b.subrange(o + n, o + n + 2) =~= field_text(f).subrange(n, n + 2));
    assert(b.subrange(o + n + 2, o + n + 2 + v) =~= field_text(f).skip(n + 2));
    assert(b.subrange(o + n + 2 + v, o + n + 4 + v) =~= "\r\n"@);
}

} // verus!
