//! The request side of HTTP/1.x: framing the bytes read from a connection and
//! parsing them into a `Request`.

use crate::text::{
    blank, chars_of, decode_chars, find, is_blank, join, lemma_find, lemma_find_is,
    lemma_split_char, lemma_split_char_none, lemma_split_char_pieces, lemma_split_join,
    lemma_split_len, lemma_split_once_char, lemma_split_once_char_none, occurs_at, split,
    split_in, split_once, split_once_in, string_of, views,
};
use vstd::hash_map::StringHashMap;
use vstd::prelude::*;
use vstd::utf8::{
    decode_utf8, encode_utf8, encode_utf8_decode_utf8, encode_utf8_valid_utf8, valid_utf8,
};

verus! {

/// How many bytes one read from a connection asks for.
pub const CHUNK_SIZE: usize = 4096;

/// The separator of lines.
pub open spec fn crlf() -> Seq<char> {
    seq!['\r', '\n']
}

/// The separator of the three parts of a request line.
pub open spec fn space() -> Seq<char> {
    seq![' ']
}

/// The separator of a header's name and its value.
pub open spec fn colon_space() -> Seq<char> {
    seq![':', ' ']
}

/// The mark that ends the path of a request target and begins its query.
pub open spec fn question_mark() -> Seq<char> {
    seq!['?']
}

/// The separator of the pairs of a query.
pub open spec fn ampersand() -> Seq<char> {
    seq!['&']
}

/// The separator of a query parameter's name and its value.
pub open spec fn equals_sign() -> Seq<char> {
    seq!['=']
}

/// The map that `items` give when each is cut at its first `sep` into a name
/// and a value: an item without `sep` adds nothing, and of two items with one
/// name the later one stays.
pub open spec fn pairs(items: Seq<Seq<char>>, sep: Seq<char>) -> Map<Seq<char>, Seq<char>>
    decreases items.len(),
{
    if items.len() == 0 {
        Map::empty()
    } else {
        let earlier = pairs(items.drop_last(), sep);
        match split_once(items.last(), sep) {
            Some((name, value)) => earlier.insert(name, value),
            None => earlier,
        }
    }
}

/// The parameters of the query string `q`: its pairs are separated by `&`,
/// name and value by the first `=`. A query without any pair is no query.
pub open spec fn parse_query_spec(q: Seq<char>) -> Option<Map<Seq<char>, Seq<char>>> {
    let params = pairs(split(q, ampersand()), equals_sign());
    if params.is_empty() {
        None
    } else {
        Some(params)
    }
}

/// The path of the request target `resource` and the parameters of its query.
/// The path ends at the first `?`; a query that is empty or all white space
/// is no query.
pub open spec fn parse_resource_spec(resource: Seq<char>) -> (
    Seq<char>,
    Option<Map<Seq<char>, Seq<char>>>,
) {
    match split_once(resource, question_mark()) {
        Some((path, q)) => if blank(q) {
            (path, None)
        } else {
            (path, parse_query_spec(q))
        },
        None => (resource, None),
    }
}

/// A header line's name and value, cut at the first `: `.
pub open spec fn parse_header_spec(line: Seq<char>) -> Option<(Seq<char>, Seq<char>)> {
    split_once(line, colon_space())
}

/// What a request holds, as plain text and maps.
pub struct RequestView {
    pub method: Seq<char>,
    pub path: Seq<char>,
    pub version: Seq<char>,
    pub headers: Map<Seq<char>, Seq<char>>,
    pub query: Option<Map<Seq<char>, Seq<char>>>,
}

/// The request that `text` holds. Its lines are separated by CR LF. The first
/// one must have exactly three parts separated by single spaces: method,
/// target and version. Every later line that has a `: ` is a header.
pub open spec fn parse_text_spec(text: Seq<char>) -> Option<RequestView> {
    let lines = split(text, crlf());
    let parts = split(lines[0], space());
    if parts.len() == 3 {
        Some(
            RequestView {
                method: parts[0],
                path: parse_resource_spec(parts[1]).0,
                version: parts[2],
                headers: pairs(lines.skip(1), colon_space()),
                query: parse_resource_spec(parts[1]).1,
            },
        )
    } else {
        None
    }
}

/// The request that `bytes` hold: they must be UTF-8, and the text must hold
/// a request.
pub open spec fn parse_spec(bytes: Seq<u8>) -> Option<RequestView> {
    if valid_utf8(bytes) {
        parse_text_spec(decode_utf8(bytes))
    } else {
        None
    }
}

/// The line that is logged for a request: when it came, its method and its
/// path.
pub open spec fn log_line_spec(timestamp: Seq<char>, method: Seq<char>, path: Seq<char>) -> Seq<
    char,
> {
    timestamp + " - "@ + method + " "@ + path
}

/// A map of texts, each value taken by its view.
pub open spec fn texts(m: Map<Seq<char>, String>) -> Map<Seq<char>, Seq<char>> {
    m.map_values(|v: String| v@)
}

/// The view of a query that may be absent.
pub open spec fn query_view(q: Option<StringHashMap<String>>) -> Option<Map<Seq<char>, Seq<char>>> {
    match q {
        Some(m) => Some(texts(m@)),
        None => None,
    }
}

/// A parsed request.
pub struct Request {
    /// The method, as received.
    pub method: String,
    /// The target up to its query.
    pub path: String,
    /// The version, as received.
    pub version: String,
    /// The headers by name.
    pub headers: StringHashMap<String>,
    /// The parameters of the query, if the target has any.
    pub query: Option<StringHashMap<String>>,
}

impl View for Request {
    type V = RequestView;

    open spec fn view(&self) -> RequestView {
        RequestView {
            method: self.method@,
            path: self.path@,
            version: self.version@,
            headers: texts(self.headers@),
            query: query_view(self.query),
        }
    }
}

/// The pairs that the items from index `from` on give, cut at `sep`.
fn collect_pairs(items: &Vec<&[char]>, from: usize, sep: &[char]) -> (m: StringHashMap<String>)
    requires
        from <= items.len(),
    ensures
        texts(m@) == pairs(views(items@).skip(from as int), sep@),
{
    let mut m: StringHashMap<String> = StringHashMap::new();
    let mut i: usize = from;
    while i < items.len()
        invariant
            from <= i <= items.len(),
            texts(m@) == pairs(views(items@).subrange(from as int, i as int), sep@),
        decreases items.len() - i,
    {
        let ghost done = views(items@).subrange(from as int, i as int);
        let ghost next = views(items@).subrange(from as int, i + 1);
        assert(next.drop_last() =~= done);
        match split_once_in(items[i], sep) {
            Some((name, value)) => {
                let name = string_of(name);
                let value = string_of(value);
                m.insert(name, value);
            },
            None => {},
        }
        i += 1;
    }
    m
}

/// The parameters of the query `q`.
fn query_of(q: &[char]) -> (r: Option<StringHashMap<String>>)
    ensures
        query_view(r) == parse_query_spec(q@),
{
    let amp: [char; 1] = ['&'];
    let eq: [char; 1] = ['='];
    assert(amp@ =~= ampersand());
    assert(eq@ =~= equals_sign());
    let items = split_in(q, amp.as_slice());
    assert(views(items@).skip(0) =~= views(items@));
    let params = collect_pairs(&items, 0, eq.as_slice());
    if params.is_empty() {
        None
    } else {
        Some(params)
    }
}

/// The path of the target `resource` and the parameters of its query.
fn resource_of(resource: &[char]) -> (r: (String, Option<StringHashMap<String>>))
    ensures
        r.0@ == parse_resource_spec(resource@).0,
        query_view(r.1) == parse_resource_spec(resource@).1,
{
    let mark: [char; 1] = ['?'];
    assert(mark@ =~= question_mark());
    match split_once_in(resource, mark.as_slice()) {
        Some((path, q)) => {
            if is_blank(q) {
                (string_of(path), None)
            } else {
                (string_of(path), query_of(q))
            }
        },
        None => (string_of(resource), None),
    }
}

/// The request that `text` holds.
fn request_of(text: &[char]) -> (r: Option<Request>)
    ensures
        match r {
            Some(req) => parse_text_spec(text@) == Some(req@),
            None => parse_text_spec(text@) is None,
        },
{
    let line_end: [char; 2] = ['\r', '\n'];
    let blank_one: [char; 1] = [' '];
    let colon: [char; 2] = [':', ' '];
    assert(line_end@ =~= crlf());
    assert(blank_one@ =~= space());
    assert(colon@ =~= colon_space());
    let lines = split_in(text, line_end.as_slice());
    proof {
        lemma_split_len(text@, crlf());
    }
    let parts = split_in(lines[0], blank_one.as_slice());
    if parts.len() == 3 {
        let (path, query) = resource_of(parts[1]);
        let headers = collect_pairs(&lines, 1, colon.as_slice());
        Some(
            Request {
                method: string_of(parts[0]),
                path,
                version: string_of(parts[2]),
                headers,
                query,
            },
        )
    } else {
        None
    }
}

impl Request {
    /// One step of draining a connection into `r`. `read` is what the last
    /// read gave: the bytes that arrived, or `None` where it failed. The bytes
    /// are added to `r`. More is to be read only after a read that filled its
    /// whole chunk of `CHUNK_SIZE` bytes: a shorter one is taken to mean that
    /// nothing more is on its way. So a request that ends with a full chunk
    /// is complete only after one more, shorter read.
    pub fn get_request(r: &mut Vec<u8>, read: Option<&[u8]>) -> (more: bool)
        ensures
            match read {
                Some(chunk) => final(r)@ == old(r)@ + chunk@ && more == (chunk@.len()
                    == CHUNK_SIZE),
                None => final(r)@ == old(r)@ && !more,
            },
    {
        match read {
            Some(chunk) => {
                r.extend_from_slice(chunk);
                chunk.len() == CHUNK_SIZE
            },
            None => false,
        }
    }

    /// Parses the bytes of a request. There is a request exactly where the
    /// bytes are UTF-8 and the first line has three parts separated by single
    /// spaces.
    pub fn parse(bytes: &[u8]) -> (r: Option<Request>)
        ensures
            match r {
                Some(req) => parse_spec(bytes@) == Some(req@),
                None => parse_spec(bytes@) is None,
            },
    {
        match decode_chars(bytes) {
            Some(text) => request_of(text.as_slice()),
            None => None,
        }
    }

    /// The line that is logged for this request, received at `timestamp`.
    pub fn log_line(&self, timestamp: &str) -> (line: String)
        ensures
            line@ == log_line_spec(timestamp@, self.method@, self.path@),
    {
        let mut line = String::from_str(timestamp);
        line.append(" - ");
        line.append(self.method.as_str());
        line.append(" ");
        line.append(self.path.as_str());
        line
    }

    /// Cuts a request target into its path and the parameters of its query.
    pub fn parse_resource(resource: &str) -> (r: (String, Option<StringHashMap<String>>))
        ensures
            r.0@ == parse_resource_spec(resource@).0,
            query_view(r.1) == parse_resource_spec(resource@).1,
    {
        let chars = chars_of(resource);
        resource_of(chars.as_slice())
    }

    /// Parses a query string into its parameters. `None` where it holds no
    /// pair of a name and a value.
    pub fn parse_query(q: &str) -> (r: Option<StringHashMap<String>>)
        ensures
            query_view(r) == parse_query_spec(q@),
    {
        let chars = chars_of(q);
        query_of(chars.as_slice())
    }

    /// Cuts a header line at its first `: ` into name and value. `None` where
    /// the line has no `: `.
    pub fn parse_header(line: &str) -> (r: Option<(String, String)>)
        ensures
            match r {
                Some((name, value)) => parse_header_spec(line@) == Some((name@, value@)),
                None => parse_header_spec(line@) is None,
            },
    {
        let chars = chars_of(line);
        let colon: [char; 2] = [':', ' '];
        assert(colon@ =~= colon_space());
        match split_once_in(chars.as_slice(), colon.as_slice()) {
            Some((name, value)) => Some((string_of(name), string_of(value))),
            None => None,
        }
    }
}

/// A line without CR LF, then CR LF, then `tail`: the text is cut after the
/// line.
pub proof fn lemma_first_line(line: Seq<char>, tail: Seq<char>)
    requires
        find(line, crlf()) is None,
    ensures
        split_once(line + crlf() + tail, crlf()) == Some((line, tail)),
        split(line + crlf() + tail, crlf()) == seq![line] + split(tail, crlf()),
        split(line, crlf()) == seq![line],
{
    let s = line + crlf() + tail;
    let n = line.len() as int;
    lemma_find(line, crlf());
    assert(s.subrange(n, n + 2) =~= crlf());
    assert forall|j: int| 0 <= j < n implies !occurs_at(s, crlf(), j) by {
        if occurs_at(s, crlf(), j) {
            if j + 2 <= n {
                assert(line.subrange(j, j + 2) =~= crlf());
                assert(occurs_at(line, crlf(), j));
            }
        }
    }
    lemma_find_is(s, crlf(), n);
    assert(s.subrange(n + 2, s.len() as int) =~= tail);
}

/// Three parts without spaces, joined by single spaces, are cut into those
/// three parts.
pub proof fn lemma_three_parts(method: Seq<char>, target: Seq<char>, version: Seq<char>)
    requires
        !method.contains(' '),
        !target.contains(' '),
        !version.contains(' '),
    ensures
        split(method + space() + target + space() + version, space()) == seq![
            method,
            target,
            version,
        ],
{
    let line = method + space() + target + space() + version;
    assert(line =~= method + seq![' '] + (target + seq![' '] + version));
    lemma_split_char(method, ' ', target + seq![' '] + version);
    lemma_split_char(target, ' ', version);
    lemma_split_char_none(version, ' ');
}

/// Every well-formed request line parses, and into its own three parts. Let
/// `method`, `target` and `version` hold no space, and the line made of them
/// no CR LF. Then the line, alone or followed by CR LF and anything, is a
/// request with that method and that version, whose path is the target up to
/// its first `?`: the whole target where it has none.
pub proof fn lemma_request_line(
    method: Seq<char>,
    target: Seq<char>,
    version: Seq<char>,
    rest: Seq<char>,
)
    requires
        !method.contains(' '),
        !target.contains(' '),
        !version.contains(' '),
        find(method + space() + target + space() + version, crlf()) is None,
    ensures
        ({
            let line = method + space() + target + space() + version;
            let alone = parse_text_spec(line);
            let followed = parse_text_spec(line + crlf() + rest);
            &&& alone == Some(
                RequestView {
                    method,
                    path: parse_resource_spec(target).0,
                    version,
                    headers: Map::empty(),
                    query: parse_resource_spec(target).1,
                },
            )
            &&& followed == Some(
                RequestView {
                    method,
                    path: parse_resource_spec(target).0,
                    version,
                    headers: pairs(split(rest, crlf()), colon_space()),
                    query: parse_resource_spec(target).1,
                },
            )
            &&& !target.contains('?') ==> parse_resource_spec(target) == (
                target,
                None::<Map<Seq<char>, Seq<char>>>,
            )
        }),
{
    let line = method + space() + target + space() + version;
    lemma_first_line(line, rest);
    lemma_three_parts(method, target, version);
    let lines = split(line + crlf() + rest, crlf());
    assert(lines.skip(1) =~= split(rest, crlf()));
    if !target.contains('?') {
        lemma_split_once_char_none(target, '?');
    }
}

/// Only a well-formed request line parses: where a text holds a request, its
/// first line is the method, a space, a target, a space and the version, and
/// none of the three holds a space.
pub proof fn lemma_request_is_well_formed(text: Seq<char>)
    requires
        parse_text_spec(text) is Some,
    ensures
        ({
            let line = split(text, crlf())[0];
            let parts = split(line, space());
            let r = parse_text_spec(text).unwrap();
            &&& line == r.method + space() + parts[1] + space() + r.version
            &&& !r.method.contains(' ') && !parts[1].contains(' ') && !r.version.contains(' ')
            &&& (r.path, r.query) == parse_resource_spec(parts[1])
        }),
{
    let line = split(text, crlf())[0];
    let parts = split(line, space());
    lemma_split_join(line, space());
    lemma_split_char_pieces(line, ' ', 0);
    lemma_split_char_pieces(line, ' ', 1);
    lemma_split_char_pieces(line, ' ', 2);
    assert(parts.skip(1).skip(1) =~= seq![parts[2]]);
    assert(join(parts.skip(1).skip(1), space()) == parts[2]);
    assert(join(parts.skip(1), space()) == parts[1] + space() + parts[2]);
    assert(parts[0] + space() + (parts[1] + space() + parts[2]) =~= parts[0] + space() + parts[1]
        + space() + parts[2]);
}

/// Without exactly three parts in the first line there is no request, and
/// with them there is one.
pub proof fn lemma_three_parts_or_nothing(text: Seq<char>)
    ensures
        parse_text_spec(text) is Some <==> split(split(text, crlf())[0], space()).len() == 3,
{
}

/// Of the items that give one name, the last one gives the value: where item
/// `i` gives `name` and no later item does, `name` stands for the value of
/// item `i`.
pub proof fn lemma_last_pair_wins(items: Seq<Seq<char>>, sep: Seq<char>, i: int)
    requires
        0 <= i < items.len(),
        split_once(items[i], sep) is Some,
        forall|j: int|
            i < j < items.len() && split_once(#[trigger] items[j], sep) is Some ==> split_once(
                items[j],
                sep,
            ).unwrap().0 != split_once(items[i], sep).unwrap().0,
    ensures
        pairs(items, sep).contains_key(split_once(items[i], sep).unwrap().0),
        pairs(items, sep)[split_once(items[i], sep).unwrap().0] == split_once(
            items[i],
            sep,
        ).unwrap().1,
    decreases items.len(),
{
    let last = items.len() - 1;
    if i < last {
        lemma_last_pair_wins(items.drop_last(), sep, i);
    }
}

/// A name stands in the map exactly where some item gives it.
pub proof fn lemma_pairs_names(items: Seq<Seq<char>>, sep: Seq<char>, name: Seq<char>)
    ensures
        pairs(items, sep).contains_key(name) <==> exists|i: int|
            0 <= i < items.len() && split_once(#[trigger] items[i], sep) is Some && split_once(
                items[i],
                sep,
            ).unwrap().0 == name,
    decreases items.len(),
{
    if items.len() > 0 {
        let earlier = items.drop_last();
        lemma_pairs_names(earlier, sep, name);
        let last = items.len() - 1;
        if exists|i: int|
            0 <= i < items.len() && split_once(#[trigger] items[i], sep) is Some && split_once(
                items[i],
                sep,
            ).unwrap().0 == name {
            let i = choose|i: int|
                0 <= i < items.len() && split_once(#[trigger] items[i], sep) is Some && split_once(
                    items[i],
                    sep,
                ).unwrap().0 == name;
            if i < last {
                assert(earlier[i] == items[i]);
            }
        }
    }
}

/// Of the header lines of a request that have one name, the last one gives
/// the value. Line 0 of the text is the request line; where line `i` after it
/// is a header, and no later line is a header of that name, the request has
/// the value of line `i` under that name.
pub proof fn lemma_last_header_wins(text: Seq<char>, i: int)
    requires
        parse_text_spec(text) is Some,
        1 <= i < split(text, crlf()).len(),
        parse_header_spec(split(text, crlf())[i]) is Some,
        forall|j: int|
            i < j < split(text, crlf()).len() && parse_header_spec(
                #[trigger] split(text, crlf())[j],
            ) is Some ==> parse_header_spec(split(text, crlf())[j]).unwrap().0
                != parse_header_spec(split(text, crlf())[i]).unwrap().0,
    ensures
        ({
            let header = parse_header_spec(split(text, crlf())[i]).unwrap();
            let headers = parse_text_spec(text).unwrap().headers;
            headers.contains_key(header.0) && headers[header.0] == header.1
        }),
{
    lemma_last_pair_wins(split(text, crlf()).skip(1), colon_space(), i - 1);
}

/// A query that is empty or all white space is no query: the target made of
/// a path without `?`, a `?` and such a query has that path and no
/// parameters.
pub proof fn lemma_blank_query_is_absent(path: Seq<char>, q: Seq<char>)
    requires
        !path.contains('?'),
        blank(q),
    ensures
        parse_resource_spec(path + question_mark() + q) == (
            path,
            None::<Map<Seq<char>, Seq<char>>>,
        ),
{
    lemma_split_once_char(path, '?', q);
}

/// A query of two pairs gives both parameters, and a piece without `=`
/// between them changes nothing. Let the names `a` and `b` hold neither `=`
/// nor `&`, the values `x` and `y` no `&`, and `bad` neither.
pub proof fn lemma_query_of_two_pairs(
    a: Seq<char>,
    x: Seq<char>,
    b: Seq<char>,
    y: Seq<char>,
    bad: Seq<char>,
)
    requires
        !a.contains('=') && !a.contains('&'),
        !b.contains('=') && !b.contains('&'),
        !x.contains('&'),
        !y.contains('&'),
        !bad.contains('=') && !bad.contains('&'),
    ensures
        parse_query_spec(a + equals_sign() + x + ampersand() + b + equals_sign() + y) == Some(
            Map::<Seq<char>, Seq<char>>::empty().insert(a, x).insert(b, y),
        ),
        parse_query_spec(
            a + equals_sign() + x + ampersand() + bad + ampersand() + b + equals_sign() + y,
        ) == Some(Map::<Seq<char>, Seq<char>>::empty().insert(a, x).insert(b, y)),
{
    let first = a + seq!['='] + x;
    let second = b + seq!['='] + y;
    let params = Map::<Seq<char>, Seq<char>>::empty().insert(a, x).insert(b, y);
    assert(!first.contains('&'));
    assert(!second.contains('&'));
    lemma_split_once_char(a, '=', x);
    lemma_split_once_char(b, '=', y);
    lemma_split_once_char_none(bad, '=');
    lemma_split_char_none(second, '&');

    let two = first + seq!['&'] + second;
    assert(two =~= a + equals_sign() + x + ampersand() + b + equals_sign() + y);
    lemma_split_char(first, '&', second);
    let items = seq![first] + seq![second];
    assert(items.drop_last() =~= seq![first]);
    assert(seq![first].drop_last() =~= Seq::<Seq<char>>::empty());
    assert(pairs(Seq::<Seq<char>>::empty(), equals_sign()) == Map::<Seq<char>, Seq<char>>::empty());
    assert(pairs(seq![first], equals_sign()) == Map::<Seq<char>, Seq<char>>::empty().insert(a, x));

    let three = first + seq!['&'] + (bad + seq!['&'] + second);
    assert(three =~= a + equals_sign() + x + ampersand() + bad + ampersand() + b + equals_sign()
        + y);
    lemma_split_char(first, '&', bad + seq!['&'] + second);
    lemma_split_char(bad, '&', second);
    let more = seq![first] + (seq![bad] + seq![second]);
    assert(more.drop_last() =~= seq![first] + seq![bad]);
    assert((seq![first] + seq![bad]).drop_last() =~= seq![first]);
    assert(pairs(seq![first] + seq![bad], equals_sign()) == Map::<
        Seq<char>,
        Seq<char>,
    >::empty().insert(a, x));
}

/// The bytes that encode a text in UTF-8 hold the request that the text
/// holds.
pub proof fn lemma_parse_of_encoded(text: Seq<char>)
    ensures
        parse_spec(encode_utf8(text)) == parse_text_spec(text),
{
    encode_utf8_valid_utf8(text);
    encode_utf8_decode_utf8(text);
}

/// Bytes that are not UTF-8 hold no request, and no bytes at all hold none.
pub proof fn lemma_no_request(bytes: Seq<u8>)
    ensures
        !valid_utf8(bytes) ==> parse_spec(bytes) is None,
        parse_spec(Seq::empty()) is None,
{
    let none = Seq::<char>::empty();
    lemma_find(none, crlf());
    lemma_find(none, space());
}

} // verus!
