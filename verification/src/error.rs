//! The protocol error envelope: a closed taxonomy of failures, each with an
//! HTTP status, a short machine-readable code and a human-readable message,
//! rendered to the fixed wire shape `{"error":"<code>","message":"<text>"}`
//! with `Content-Type: application/json`.

use vstd::prelude::*;

verus! {

/// Relies on `String::push`: appends the given character to the string.
pub assume_specification[ String::push ](s: &mut String, c: char)
    ensures
        final(s)@ == old(s)@.push(c),
;

/// The lowercase hexadecimal digit for `n`.
pub open spec fn hex_digit_char(n: int) -> char {
    if n == 0 {
        '0'
    } else if n == 1 {
        '1'
    } else if n == 2 {
        '2'
    } else if n == 3 {
        '3'
    } else if n == 4 {
        '4'
    } else if n == 5 {
        '5'
    } else if n == 6 {
        '6'
    } else if n == 7 {
        '7'
    } else if n == 8 {
        '8'
    } else if n == 9 {
        '9'
    } else if n == 10 {
        'a'
    } else if n == 11 {
        'b'
    } else if n == 12 {
        'c'
    } else if n == 13 {
        'd'
    } else if n == 14 {
        'e'
    } else {
        'f'
    }
}

/// The JSON string escape of one character: `"` and `\` get a backslash,
/// the five control characters with short forms use them, the remaining
/// control characters use `\u00xx`, and every other character stands as
/// itself.
pub open spec fn escape_char(c: char) -> Seq<char> {
    if c == '"' {
        seq!['\\', '"']
    } else if c == '\\' {
        seq!['\\', '\\']
    } else if c == '\u{8}' {
        seq!['\\', 'b']
    } else if c == '\t' {
        seq!['\\', 't']
    } else if c == '\n' {
        seq!['\\', 'n']
    } else if c == '\u{c}' {
        seq!['\\', 'f']
    } else if c == '\r' {
        seq!['\\', 'r']
    } else if (c as u32) < 0x20 {
        seq!['\\', 'u', '0', '0', hex_digit_char(c as u32 as int / 16), hex_digit_char(
            c as u32 as int % 16,
        )]
    } else {
        seq![c]
    }
}

/// The JSON string escape of a whole character sequence.
pub open spec fn json_escaped(s: Seq<char>) -> Seq<char>
    decreases s.len(),
{
    if s.len() == 0 {
        Seq::empty()
    } else {
        escape_char(s[0]) + json_escaped(s.drop_first())
    }
}

proof fn lemma_json_escaped_push(u: Seq<char>, x: char)
    ensures
        json_escaped(u.push(x)) == json_escaped(u) + escape_char(x),
    decreases u.len(),
{
    if u.len() == 0 {
        assert(u.push(x)[0] == x);
        assert(u.push(x).drop_first() =~= u);
        assert(json_escaped(u.push(x)) =~= json_escaped(u) + escape_char(x));
    } else {
        assert(u.push(x)[0] == u[0]);
        assert(u.push(x).drop_first() =~= u.drop_first().push(x));
        lemma_json_escaped_push(u.drop_first(), x);
        assert(json_escaped(u.push(x)) =~= json_escaped(u) + escape_char(x));
    }
}

/// Returns the lowercase hexadecimal digit for `n`.
fn hex_digit(n: u32) -> (r: char)
    requires
        n < 16,
    ensures
        r == hex_digit_char(n as int),
{
    if n == 0 {
        '0'
    } else if n == 1 {
        '1'
    } else if n == 2 {
        '2'
    } else if n == 3 {
        '3'
    } else if n == 4 {
        '4'
    } else if n == 5 {
        '5'
    } else if n == 6 {
        '6'
    } else if n == 7 {
        '7'
    } else if n == 8 {
        '8'
    } else if n == 9 {
        '9'
    } else if n == 10 {
        'a'
    } else if n == 11 {
        'b'
    } else if n == 12 {
        'c'
    } else if n == 13 {
        'd'
    } else if n == 14 {
        'e'
    } else {
        'f'
    }
}

/// Appends the JSON string escape of `s` to `out`.
fn push_json_escaped(out: &mut String, s: &str)
    ensures
        final(out)@ == old(out)@ + json_escaped(s@),
{
    let n = s.unicode_len();
    let mut i: usize = 0;
    while i < n
        invariant
            i <= n,
            n == s@.len(),
            out@ == old(out)@ + json_escaped(s@.subrange(0, i as int)),
        decreases n - i,
    {
        let c = s.get_char(i);
        if c == '"' {
            out.push('\\');
            out.push('"');
        } else if c == '\\' {
            out.push('\\');
            out.push('\\');
        } else if c == '\u{8}' {
            out.push('\\');
            out.push('b');
        } else if c == '\t' {
            out.push('\\');
            out.push('t');
        } else if c == '\n' {
            out.push('\\');
            out.push('n');
        } else if c == '\u{c}' {
            out.push('\\');
            out.push('f');
        } else if c == '\r' {
            out.push('\\');
            out.push('r');
        } else if (c as u32) < 0x20 {
            out.push('\\');
            out.push('u');
            out.push('0');
            out.push('0');
            out.push(hex_digit((c as u32) / 16));
            out.push(hex_digit((c as u32) % 16));
        } else {
            out.push(c);
        }
        proof {
            lemma_json_escaped_push(s@.subrange(0, i as int), s@[i as int]);
            assert(s@.subrange(0, i + 1) =~= s@.subrange(0, i as int).push(s@[i as int]));
            assert(out@ =~= old(out)@ + json_escaped(s@.subrange(0, i + 1)));
        }
        i += 1;
    }
    proof {
        assert(s@.subrange(0, n as int) =~= s@);
    }
}

/// The response the core hands back to the HTTP layer: a status, an
/// optional content type, and a body.
#[derive(Debug, Clone)]
pub struct WireResponse {
    /// The HTTP status code of the response.
    pub status: u16,
    /// The value of the `Content-Type` header, if one is set.
    pub content_type: Option<String>,
    /// The body text of the response.
    pub body: String,
}

impl WireResponse {
    /// Creates a response with the given status, an empty body and no
    /// content type.
    pub fn empty(status: u16) -> (r: WireResponse)
        ensures
            r.status == status,
            r.content_type is None,
            r.body@ == Seq::<char>::empty(),
    {
        WireResponse { status, content_type: None, body: String::new() }
    }
}

/// An XRPC error value: not an exception, but data carried to the edge of
/// the request pipeline and rendered there.
#[derive(Debug, Clone)]
pub struct XrpcError {
    /// The HTTP status code to return.
    pub status: u16,
    /// The short machine-readable code of the error.
    pub error: String,
    /// The human-readable message associated with the error.
    pub message: String,
}

/// The fixed JSON wire shape of an error envelope.
pub open spec fn json_error_body(error: Seq<char>, message: Seq<char>) -> Seq<char> {
    "{\"error\":\""@ + json_escaped(error) + "\",\"message\":\""@ + json_escaped(message) + "\"}"@
}

impl XrpcError {
    /// Creates an error indicating that a resource was not found.
    pub fn not_found(message: String) -> (r: XrpcError)
        ensures
            r.status == 404,
            r.error@ == "not_found"@,
            r.message == message,
    {
        XrpcError { status: 404, error: String::from_str("not_found"), message }
    }

    /// Creates an error indicating that the requested method was not
    /// allowed.
    pub fn method_not_allowed(message: String) -> (r: XrpcError)
        ensures
            r.status == 405,
            r.error@ == "method_not_allowed"@,
            r.message == message,
    {
        XrpcError { status: 405, error: String::from_str("method_not_allowed"), message }
    }

    /// Creates an error indicating that the request was not made properly.
    pub fn invalid_request(message: String) -> (r: XrpcError)
        ensures
            r.status == 400,
            r.error@ == "invalid_request"@,
            r.message == message,
    {
        XrpcError { status: 400, error: String::from_str("invalid_request"), message }
    }

    /// Creates the error with which a protocol method answers while its
    /// business logic is not yet wired in.
    pub fn not_implemented(message: String) -> (r: XrpcError)
        ensures
            r.status == 501,
            r.error@ == "method_not_implemented"@,
            r.message == message,
    {
        XrpcError { status: 501, error: String::from_str("method_not_implemented"), message }
    }

    /// The sentinel used when deeper context is unavailable, for example
    /// when the connection was lost while reading a body: a bare internal
    /// server error with empty code and message.
    pub fn dummy() -> (r: XrpcError)
        ensures
            r.status == 500,
            r.error@ == Seq::<char>::empty(),
            r.message@ == Seq::<char>::empty(),
    {
        XrpcError { status: 500, error: String::new(), message: String::new() }
    }

    /// Converts the error into a response carrying the fixed JSON shape.
    pub fn to_response(&self) -> (r: WireResponse)
        ensures
            r.status == self.status,
            r.content_type matches Some(ct) && ct@ == "application/json"@,
            r.body@ == json_error_body(self.error@, self.message@),
    {
        let mut body = String::from_str("{\"error\":\"");
        push_json_escaped(&mut body, self.error.as_str());
        body.append("\",\"message\":\"");
        push_json_escaped(&mut body, self.message.as_str());
        body.append("\"}");
        proof {
            assert(body@ =~= json_error_body(self.error@, self.message@));
        }
        WireResponse {
            status: self.status,
            content_type: Some(String::from_str("application/json")),
            body,
        }
    }
}

/// Renders a handler result: the unit value becomes an empty 200 response,
/// an error is rendered through its own envelope.
pub fn result_into_response(r: Result<(), XrpcError>) -> (resp: WireResponse)
    ensures
        match r {
            Ok(_) => {
                &&& resp.status == 200
                &&& resp.content_type is None
                &&& resp.body@ == Seq::<char>::empty()
            },
            Err(e) => {
                &&& resp.status == e.status
                &&& resp.content_type matches Some(ct) && ct@ == "application/json"@
                &&& resp.body@ == json_error_body(e.error@, e.message@)
            },
        },
{
    match r {
        Ok(_) => WireResponse::empty(200),
        Err(e) => e.to_response(),
    }
}

} // verus!
