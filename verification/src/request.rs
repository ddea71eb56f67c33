//! Parsing a raw request into its request line, header fields and body.

use crate::bytes::{
    copy_range,
    lemma_split_joined,
    lemma_split_none,
    lemma_split_pieces,
    occurs_in,
    split,
    split_on,
    unbordered,
    views,
};
use crate::error::ServerError;
use crate::headers::Headers;
use vstd::prelude::*;
use vstd::string::StringSliceAdditionalSpecFns;

verus! {

/// A request as parsed from one connection.
#[derive(Debug)]
pub struct ParsedRequest {
    /// The HTTP method, the first token of the request line.
    pub method: Vec<u8>,
    /// The request target, the second token of the request line.
    pub path: Vec<u8>,
    /// The protocol version, the third token of the request line.
    pub version: Vec<u8>,
    /// The header fields, kept apart from the request line's own fields.
    pub headers: Headers,
    /// The body, where the request has a line that is no header field.
    pub body: Option<Vec<u8>>,
}

/// What a `ParsedRequest` holds.
pub struct RequestView {
    pub method: Seq<u8>,
    pub path: Seq<u8>,
    pub version: Seq<u8>,
    pub headers: Map<Seq<u8>, Seq<u8>>,
    pub body: Option<Seq<u8>>,
}

impl View for ParsedRequest {
    type V = RequestView;

    open spec fn view(&self) -> RequestView {
        RequestView {
            method: self.method@,
            path: self.path@,
            version: self.version@,
            headers: self.headers@,
            body: match self.body {
                Some(body) => Some(body@),
                None => None,
            },
        }
    }
}

/// The name and value of a header line: the two parts of a line that holds
/// `": "` exactly once.
pub open spec fn header_field(line: Seq<u8>) -> Option<(Seq<u8>, Seq<u8>)> {
    let parts = split(line, ": ".spec_bytes());
    if parts.len() == 2 {
        Some((parts[0], parts[1]))
    } else {
        None
    }
}

/// A line that holds no `": "` is taken for the body.
pub open spec fn is_body_line(line: Seq<u8>) -> bool {
    split(line, ": ".spec_bytes()).len() == 1
}

/// The header fields of `lines`, a later field replacing an earlier one of
/// the same name.
pub open spec fn header_fields(lines: Seq<Seq<u8>>) -> Map<Seq<u8>, Seq<u8>>
    decreases lines.len(),
{
    if lines.len() == 0 {
        Map::empty()
    } else {
        let earlier = header_fields(lines.drop_last());
        match header_field(lines.last()) {
            Some((name, value)) => earlier.insert(name, value),
            None => earlier,
        }
    }
}

/// The last of `lines` that is a body line.
pub open spec fn body_of(lines: Seq<Seq<u8>>) -> Option<Seq<u8>>
    decreases lines.len(),
{
    if lines.len() == 0 {
        None
    } else if is_body_line(lines.last()) {
        Some(lines.last())
    } else {
        body_of(lines.drop_last())
    }
}

/// The request that `raw` holds: its lines are the pieces between CRLF
/// sequences, the first of them the request line, whose first three
/// space-separated tokens are method, path and version. A request line with
/// fewer than three tokens makes no request.
pub open spec fn parse(raw: Seq<u8>) -> Option<RequestView> {
    let lines = split(raw, "\r\n".spec_bytes());
    let tokens = split(lines[0], " ".spec_bytes());
    if tokens.len() >= 3 {
        Some(
            RequestView {
                method: tokens[0],
                path: tokens[1],
                version: tokens[2],
                headers: header_fields(lines.skip(1)),
                body: body_of(lines.skip(1)),
            },
        )
    } else {
        None
    }
}

proof fn lemma_separators()
    ensures
        unbordered(" ".spec_bytes()),
        unbordered(": ".spec_bytes()),
{
    reveal_strlit(" ");
    reveal_strlit(": ");
    vstd::string::is_ascii_spec_bytes(" ");
    vstd::string::is_ascii_spec_bytes(": ");
    assert(vstd::string::is_ascii(" "));
    assert(vstd::string::is_ascii(": "));
    let mark = ": ".spec_bytes();
    assert(mark.subrange(0, 1)[0] != mark.subrange(1, 2)[0]);
}

/// A request line of three tokens joined by single spaces, none of them
/// holding a space, parses to exactly those tokens: the first as method,
/// the second as path, the third as version.
pub proof fn lemma_request_line_tokens(
    raw: Seq<u8>,
    method: Seq<u8>,
    path: Seq<u8>,
    version: Seq<u8>,
)
    requires
        split(raw, "\r\n".spec_bytes())[0] == method + " ".spec_bytes() + path
            + " ".spec_bytes() + version,
        !occurs_in(method, " ".spec_bytes()),
        !occurs_in(path, " ".spec_bytes()),
        !occurs_in(version, " ".spec_bytes()),
    ensures
        parse(raw) is Some,
        parse(raw)->0.method == method,
        parse(raw)->0.path == path,
        parse(raw)->0.version == version,
{
    let space = " ".spec_bytes();
    let line = split(raw, "\r\n".spec_bytes())[0];
    lemma_separators();
    lemma_split_joined(method, space, path + space + version);
    lemma_split_joined(path, space, version);
    lemma_split_none(version, space);
    assert(line =~= method + space + (path + space + version));
    assert(split(line, space) =~= seq![method, path, version]);
}

/// A line `name: value`, where neither part holds `": "`, is the header
/// field of that name and value.
pub proof fn lemma_header_line(name: Seq<u8>, value: Seq<u8>)
    requires
        !occurs_in(name, ": ".spec_bytes()),
        !occurs_in(value, ": ".spec_bytes()),
    ensures
        header_field(name + ": ".spec_bytes() + value) == Some((name, value)),
{
    let mark = ": ".spec_bytes();
    lemma_separators();
    lemma_split_joined(name, mark, value);
    lemma_split_none(value, mark);
    assert(split(name + mark + value, mark) =~= seq![name, value]);
}

/// The header fields map a name to the value of the last header line of
/// that name.
pub proof fn lemma_last_field_wins(lines: Seq<Seq<u8>>, i: int, name: Seq<u8>, value: Seq<u8>)
    requires
        0 <= i < lines.len(),
        header_field(lines[i]) == Some((name, value)),
        forall|j: int|
            i < j < lines.len() ==> !(header_field(#[trigger] lines[j]) matches Some(field)
                && field.0 == name),
    ensures
        header_fields(lines).contains_key(name),
        header_fields(lines)[name] == value,
    decreases lines.len(),
{
    if i < lines.len() - 1 {
        let earlier = lines.drop_last();
        assert forall|j: int| i < j < earlier.len() implies !(header_field(
            #[trigger] earlier[j],
        ) matches Some(field) && field.0 == name) by {
            assert(earlier[j] == lines[j]);
        }
        lemma_last_field_wins(earlier, i, name, value);
        assert(lines.last() == lines[lines.len() - 1]);
    }
}

/// Every header line `name: value` of a request is found in the parsed
/// headers under `name`, with the value of the last such line: a later
/// line of the same name replaces an earlier one.
pub proof fn lemma_header_parsed(raw: Seq<u8>, i: int, name: Seq<u8>, value: Seq<u8>)
    requires
        parse(raw) is Some,
        1 <= i < split(raw, "\r\n".spec_bytes()).len(),
        split(raw, "\r\n".spec_bytes())[i] == name + ": ".spec_bytes() + value,
        !occurs_in(name, ": ".spec_bytes()),
        !occurs_in(value, ": ".spec_bytes()),
        forall|j: int|
            i < j < split(raw, "\r\n".spec_bytes()).len() ==> !(header_field(
                #[trigger] split(raw, "\r\n".spec_bytes())[j],
            ) matches Some(field) && field.0 == name),
    ensures
        parse(raw)->0.headers.contains_key(name),
        parse(raw)->0.headers[name] == value,
{
    let lines = split(raw, "\r\n".spec_bytes());
    let fields = lines.skip(1);
    lemma_header_line(name, value);
    assert(fields[i - 1] == lines[i]);
    assert forall|j: int| i - 1 < j < fields.len() implies !(header_field(
        #[trigger] fields[j],
    ) matches Some(field) && field.0 == name) by {
        assert(fields[j] == lines[j + 1]);
    }
    lemma_last_field_wins(fields, i - 1, name, value);
}

/// Parses the request in `raw`.
pub fn parse_request(raw: &[u8]) -> (parsed: Result<ParsedRequest, ServerError>)
    ensures
        match parsed {
            Ok(request) => parse(raw@) == Some(request@),
            Err(error) => parse(raw@) is None && error == ServerError::MalformedRequestLine,
        },
{
    let lines = split_on(raw, "\r\n".as_bytes());
    proof {
        lemma_split_pieces(raw@, "\r\n".spec_bytes());
    }
    let tokens = split_on(lines[0].as_slice(), " ".as_bytes());
    if tokens.len() < 3 {
        return Err(ServerError::MalformedRequestLine);
    }
    let method = copy_range(tokens[0].as_slice(), 0, tokens[0].len());
    let path = copy_range(tokens[1].as_slice(), 0, tokens[1].len());
    let version = copy_range(tokens[2].as_slice(), 0, tokens[2].len());
    proof {
        assert(method@ =~= tokens[0]@);
        assert(path@ =~= tokens[1]@);
        assert(version@ =~= tokens[2]@);
    }
    let mut headers = Headers::new();
    let mut body: Option<Vec<u8>> = None;
    let ghost all = views(lines@);
    let mut i: usize = 1;
    proof {
        assert(all.subrange(1, 1) =~= Seq::<Seq<u8>>::empty());
    }
    while i < lines.len()
        invariant
            1 <= i <= lines.len(),
            all == views(lines@),
            headers@ == header_fields(all.subrange(1, i as int)),
            match body {
                Some(b) => Some(b@),
                None => None,
            } == body_of(all.subrange(1, i as int)),
        decreases lines.len() - i,
    {
        let line = lines[i].as_slice();
        let parts = split_on(line, ": ".as_bytes());
        proof {
            lemma_split_pieces(line@, ": ".spec_bytes());
            assert(all.subrange(1, i + 1).drop_last() =~= all.subrange(1, i as int));
            assert(all.subrange(1, i + 1).last() == line@);
        }
        if parts.len() == 2 {
            let name = copy_range(parts[0].as_slice(), 0, parts[0].len());
            let value = copy_range(parts[1].as_slice(), 0, parts[1].len());
            proof {
                assert(name@ =~= parts[0]@);
                assert(value@ =~= parts[1]@);
            }
            headers.insert(name, value);
        } else if parts.len() == 1 {
            let text = copy_range(parts[0].as_slice(), 0, parts[0].len());
            proof {
                assert(views(parts@)[0] == parts[0]@);
                assert(text@ =~= line@);
            }
            body = Some(text);
        }
        i += 1;
    }
    proof {
        assert(all.subrange(1, lines@.len() as int) =~= all.skip(1));
    }
    Ok(ParsedRequest { method, path, version, headers, body })
}

} // verus!
