//! Reading the head of a request.
use vstd::prelude::*;
use vstd::string::*;

use crate::status_http;
use crate::status_http::{characters, utf8_text, Response, ResponseModel, MAX_REQUEST_HEADERS};

verus! {

/// What is known of a request.
#[derive(Debug)]
pub struct RequestHead<'a> {
    pub method: &'a str,
    pub path: &'a str,
    pub authorization: Option<&'a [u8]>,
}

/// What is known of a request, as text.
#[verifier::ext_equal]
pub struct RequestModel {
    pub method: Seq<char>,
    pub path: Seq<char>,
    pub authorization: Option<Seq<char>>,
}

/// Where a line ends that goes on at `from`: before the next line break, or at the end.
pub open spec fn line_end(text: Seq<char>, from: int) -> int
    decreases text.len() - from,
{
    if from >= text.len() {
        text.len() as int
    } else if from + 1 < text.len() && text[from] == '\r' && text[from + 1] == '\n' {
        from
    } else {
        line_end(text, from + 1)
    }
}

/// The first place from `from` on that holds one of two characters, or `to`.
pub open spec fn first_of(text: Seq<char>, from: int, to: int, a: char, b: char) -> int
    decreases to - from,
{
    if from >= to {
        to
    } else if text[from] == a || text[from] == b {
        from
    } else {
        first_of(text, from + 1, to, a, b)
    }
}

/// Whether a character is white space as Unicode has it.
pub open spec fn is_white_space(character: char) -> bool {
    let code = character as u32;
    ||| 0x09 <= code <= 0x0d
    ||| code == 0x20
    ||| code == 0x85
    ||| code == 0xa0
    ||| code == 0x1680
    ||| 0x2000 <= code <= 0x200a
    ||| code == 0x2028
    ||| code == 0x2029
    ||| code == 0x202f
    ||| code == 0x205f
    ||| code == 0x3000
}

/// The first place from `from` on that is not white space, or `to`.
pub open spec fn trimmed_start(text: Seq<char>, from: int, to: int) -> int
    decreases to - from,
{
    if from < to && is_white_space(text[from]) {
        trimmed_start(text, from + 1, to)
    } else {
        from
    }
}

/// The end of a piece without the white space at its end.
pub open spec fn trimmed_end(text: Seq<char>, from: int, to: int) -> int
    decreases to - from,
{
    if from < to && is_white_space(text[to - 1]) {
        trimmed_end(text, from, to - 1)
    } else {
        to
    }
}

/// A piece without white space at either end.
pub open spec fn trimmed(text: Seq<char>, from: int, to: int) -> Seq<char> {
    let start = trimmed_start(text, from, to);
    text.subrange(start, trimmed_end(text, start, to))
}

/// A character without regard to the case of ASCII letters.
pub open spec fn folded(character: char) -> u32 {
    if 65 <= character as u32 <= 90 {
        (character as u32 + 32) as u32
    } else {
        character as u32
    }
}

/// Whether two texts are the same without regard to the case of ASCII letters.
pub open spec fn same_word(a: Seq<char>, b: Seq<char>) -> bool {
    a.len() == b.len() && forall|i: int|
        0 <= i < a.len() ==> folded(#[trigger] a[i]) == folded(b[i])
}

/// What the headers say from `from` on, given how many there have been and what they said. No
/// header may announce a body, and only one may carry a token.
pub open spec fn headers_from(
    text: Seq<char>,
    from: int,
    count: nat,
    authorization: Option<Seq<char>>,
) -> Result<Option<Seq<char>>, ResponseModel>
    decreases text.len() + 2 - from,
{
    let end = line_end(text, from);
    if from > text.len() || from < 0 {
        Ok(authorization)
    } else if end <= from {
        if end >= text.len() || end < from {
            Ok(authorization)
        } else {
            headers_from(text, end + 2, count, authorization)
        }
    } else if count + 1 > MAX_REQUEST_HEADERS {
        Err(status_http::crowded())
    } else {
        let colon = first_of(text, from, end, ':', ':');
        let name = text.subrange(from, colon);
        let value = trimmed(text, colon + 1, end);
        if colon >= end {
            Err(status_http::malformed())
        } else if same_word(name, "authorization"@) {
            if authorization is Some {
                Err(status_http::malformed())
            } else if end >= text.len() {
                Ok(Some(value))
            } else {
                headers_from(text, end + 2, count + 1, Some(value))
            }
        } else if same_word(name, "transfer-encoding"@) || (same_word(name, "content-length"@)
            && value != "0"@) {
            Err(status_http::malformed())
        } else if end >= text.len() {
            Ok(authorization)
        } else {
            headers_from(text, end + 2, count + 1, authorization)
        }
    }
}

/// What a request says: a method, a target and a version in the first line, each after one
/// blank, then the headers. The path is the target without a query.
pub open spec fn request_of(text: Seq<char>) -> Result<RequestModel, ResponseModel> {
    let end = line_end(text, 0);
    let first = first_of(text, 0, end, ' ', ' ');
    let second = first_of(text, first + 1, end, ' ', ' ');
    let third = first_of(text, second + 1, end, ' ', ' ');
    let version = text.subrange(second + 1, end);
    if first >= end || second >= end || third < end || (version != "HTTP/1.1"@ && version
        != "HTTP/1.0"@) {
        Err(status_http::malformed())
    } else {
        let headers = if end >= text.len() {
            Ok(None)
        } else {
            headers_from(text, end + 2, 0, None)
        };
        match headers {
            Err(refusal) => Err(refusal),
            Ok(authorization) => Ok(
                RequestModel {
                    method: text.subrange(0, first),
                    path: text.subrange(first + 1, first_of(text, first + 1, second, '?', '#')),
                    authorization,
                },
            ),
        }
    }
}

/// What a request says that comes as bytes: it has to be a text.
pub open spec fn parsed(head: Seq<u8>) -> Result<RequestModel, ResponseModel> {
    if vstd::utf8::valid_utf8(head) {
        request_of(vstd::utf8::decode_utf8(head))
    } else {
        Err(status_http::malformed())
    }
}

proof fn lemma_line_end(text: Seq<char>, from: int)
    requires
        0 <= from <= text.len(),
    ensures
        from <= line_end(text, from) <= text.len(),
        line_end(text, from) < text.len() ==> line_end(text, from) + 2 <= text.len(),
    decreases text.len() - from,
{
    if from < text.len() && !(from + 1 < text.len() && text[from] == '\r' && text[from + 1]
        == '\n') {
        lemma_line_end(text, from + 1);
    }
}

proof fn lemma_first_of(text: Seq<char>, from: int, to: int, a: char, b: char)
    requires
        0 <= from <= to <= text.len(),
    ensures
        from <= first_of(text, from, to, a, b) <= to,
    decreases to - from,
{
    if from < to && text[from] != a && text[from] != b {
        lemma_first_of(text, from + 1, to, a, b);
    }
}

fn find_line_end(text: &Vec<char>, from: usize) -> (end: usize)
    requires
        from <= text@.len(),
    ensures
        end == line_end(text@, from as int),
        from <= end <= text@.len(),
        end < text@.len() ==> end + 2 <= text@.len(),
{
    proof {
        lemma_line_end(text@, from as int);
    }
    let mut i: usize = from;
    while i < text.len()
        invariant
            from <= i <= text@.len(),
            line_end(text@, from as int) == line_end(text@, i as int),
        decreases text@.len() - i,
    {
        if i + 1 < text.len() && text[i] == '\r' && text[i + 1] == '\n' {
            return i;
        }
        i = i + 1;
    }
    i
}

fn find_first_of(text: &Vec<char>, from: usize, to: usize, a: char, b: char) -> (place: usize)
    requires
        from <= to <= text@.len(),
    ensures
        place == first_of(text@, from as int, to as int, a, b),
        from <= place <= to,
{
    let mut i: usize = from;
    while i < to
        invariant
            from <= i <= to <= text@.len(),
            first_of(text@, from as int, to as int, a, b) == first_of(
                text@,
                i as int,
                to as int,
                a,
                b,
            ),
        decreases to - i,
    {
        if text[i] == a || text[i] == b {
            return i;
        }
        i = i + 1;
    }
    i
}

fn white_space(character: char) -> (found: bool)
    ensures
        found == is_white_space(character),
{
    let code: u32 = character as u32;
    (0x09 <= code && code <= 0x0d) || code == 0x20 || code == 0x85 || code == 0xa0 || code == 0x1680
        || (0x2000 <= code && code <= 0x200a) || code == 0x2028 || code == 0x2029 || code == 0x202f
        || code == 0x205f || code == 0x3000
}

fn trim(text: &Vec<char>, from: usize, to: usize) -> (bounds: (usize, usize))
    requires
        from <= to <= text@.len(),
    ensures
        bounds.0 == trimmed_start(text@, from as int, to as int),
        bounds.1 == trimmed_end(text@, bounds.0 as int, to as int),
        from <= bounds.0 <= bounds.1 <= to,
{
    let mut start: usize = from;
    while start < to && white_space(text[start])
        invariant
            from <= start <= to <= text@.len(),
            trimmed_start(text@, from as int, to as int) == trimmed_start(
                text@,
                start as int,
                to as int,
            ),
        decreases to - start,
    {
        start = start + 1;
    }
    let mut end: usize = to;
    while start < end && white_space(text[end - 1])
        invariant
            from <= start <= end <= to <= text@.len(),
            trimmed_end(text@, start as int, to as int) == trimmed_end(
                text@,
                start as int,
                end as int,
            ),
        decreases end - start,
    {
        end = end - 1;
    }
    (start, end)
}

fn fold(character: char) -> (code: u32)
    ensures
        code == folded(character),
{
    let code: u32 = character as u32;
    if 65 <= code && code <= 90 {
        code + 32
    } else {
        code
    }
}

fn is_word(text: &Vec<char>, from: usize, to: usize, word: &str) -> (same: bool)
    requires
        from <= to <= text@.len(),
    ensures
        same == same_word(text@.subrange(from as int, to as int), word@),
{
    let letters: Vec<char> = characters(word);
    let ghost piece = text@.subrange(from as int, to as int);
    if letters.len() != to - from {
        return false;
    }
    let mut i: usize = 0;
    while i < letters.len()
        invariant
            i <= letters@.len(),
            letters@ == word@,
            letters@.len() == to - from,
            to <= text@.len(),
            piece == text@.subrange(from as int, to as int),
            forall|k: int| 0 <= k < i ==> folded(#[trigger] piece[k]) == folded(word@[k]),
        decreases letters@.len() - i,
    {
        assert(piece[i as int] == text@[from + i]);
        if fold(text[from + i]) != fold(letters[i]) {
            return false;
        }
        i = i + 1;
    }
    true
}

fn is_text(text: &Vec<char>, from: usize, to: usize, word: &str) -> (same: bool)
    requires
        from <= to <= text@.len(),
    ensures
        same == (text@.subrange(from as int, to as int) == word@),
{
    let letters: Vec<char> = characters(word);
    let ghost piece = text@.subrange(from as int, to as int);
    if letters.len() != to - from {
        return false;
    }
    let mut i: usize = 0;
    while i < letters.len()
        invariant
            i <= letters@.len(),
            letters@ == word@,
            letters@.len() == to - from,
            to <= text@.len(),
            piece == text@.subrange(from as int, to as int),
            forall|k: int| 0 <= k < i ==> piece[k] == word@[k],
        decreases letters@.len() - i,
    {
        assert(piece[i as int] == text@[from + i]);
        if text[from + i] != letters[i] {
            return false;
        }
        i = i + 1;
    }
    assert(piece =~= word@);
    true
}

/// Whether bounds enclose the token that a header carries.
pub open spec fn bounds_of(text: Seq<char>, bounds: Option<(usize, usize)>) -> Option<Seq<char>> {
    match bounds {
        None => None,
        Some((from, to)) => Some(text.subrange(from as int, to as int)),
    }
}

/// Reads the headers from `from` on and finds where the token stands.
fn read_headers(text: &Vec<char>, from: usize) -> (found: Result<Option<(usize, usize)>, Response>)
    requires
        from <= text@.len(),
    ensures
        match found {
            Ok(bounds) => headers_from(text@, from as int, 0, None) == Ok::<
                Option<Seq<char>>,
                ResponseModel,
            >(bounds_of(text@, bounds)) && (bounds matches Some((a, b)) ==> a <= b <= text@.len()),
            Err(response) => headers_from(text@, from as int, 0, None) == Err::<
                Option<Seq<char>>,
                ResponseModel,
            >(response@),
        },
{
    let ghost whole = headers_from(text@, from as int, 0, None);
    let mut authorization: Option<(usize, usize)> = None;
    let mut count: usize = 0;
    let mut start: usize = from;
    loop
        invariant
            start <= text@.len(),
            count <= MAX_REQUEST_HEADERS,
            authorization matches Some((a, b)) ==> a <= b <= text@.len(),
            whole == headers_from(text@, from as int, 0, None),
            whole == headers_from(
                text@,
                start as int,
                count as nat,
                bounds_of(text@, authorization),
            ),
        decreases text@.len() - start,
    {
        let end: usize = find_line_end(text, start);
        if end > start {
            if count + 1 > MAX_REQUEST_HEADERS {
                return Err(Response::too_many_headers());
            }
            let colon: usize = find_first_of(text, start, end, ':', ':');
            if colon >= end {
                return Err(Response::bad_request());
            }
            let (value_start, value_end): (usize, usize) = trim(text, colon + 1, end);
            if is_word(text, start, colon, "authorization") {
                if authorization.is_some() {
                    return Err(Response::bad_request());
                }
                authorization = Some((value_start, value_end));
            } else if is_word(text, start, colon, "transfer-encoding") || (is_word(
                text,
                start,
                colon,
                "content-length",
            ) && !is_text(text, value_start, value_end, "0")) {
                return Err(Response::bad_request());
            }
            count = count + 1;
        }
        if end >= text.len() {
            return Ok(authorization);
        }
        start = end + 2;
    }
}

impl<'a> RequestHead<'a> {
    /// What the head says, as text.
    pub open spec fn says(self, request: RequestModel) -> bool {
        &&& self.method@ == request.method
        &&& self.path@ == request.path
        &&& match (self.authorization, request.authorization) {
            (None, None) => true,
            (Some(bytes), Some(value)) => bytes@ == vstd::utf8::encode_utf8(value),
            _ => false,
        }
    }

    /// Reads the head of a request.
    pub fn parse(head: &'a [u8]) -> (request: Result<Self, Response>)
        ensures
            match request {
                Ok(request) => parsed(head@) is Ok && request.says(parsed(head@)->Ok_0),
                Err(response) => parsed(head@) == Err::<RequestModel, ResponseModel>(response@),
            },
    {
        let source: &'a str = match utf8_text(head) {
            None => {
                return Err(Response::bad_request());
            },
            Some(source) => source,
        };
        proof {
            vstd::utf8::encode_utf8_decode_utf8(source@);
        }
        let text: Vec<char> = characters(source);
        let end: usize = find_line_end(&text, 0);
        let first: usize = find_first_of(&text, 0, end, ' ', ' ');
        if first >= end {
            return Err(Response::bad_request());
        }
        let second: usize = find_first_of(&text, first + 1, end, ' ', ' ');
        if second >= end {
            return Err(Response::bad_request());
        }
        let third: usize = find_first_of(&text, second + 1, end, ' ', ' ');
        if third < end {
            return Err(Response::bad_request());
        }
        if !is_text(&text, second + 1, end, "HTTP/1.1") && !is_text(
            &text,
            second + 1,
            end,
            "HTTP/1.0",
        ) {
            return Err(Response::bad_request());
        }
        let path_end: usize = find_first_of(&text, first + 1, second, '?', '#');
        let bounds: Option<(usize, usize)> = if end >= text.len() {
            None
        } else {
            match read_headers(&text, end + 2) {
                Err(response) => {
                    return Err(response);
                },
                Ok(bounds) => bounds,
            }
        };
        let authorization: Option<&'a [u8]> = match bounds {
            None => None,
            Some((from, to)) => Some(source.substring_char(from, to).as_bytes()),
        };
        Ok(
            RequestHead {
                method: source.substring_char(0, first),
                path: source.substring_char(first + 1, path_end),
                authorization,
            },
        )
    }
}

} // verus!
