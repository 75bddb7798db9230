//! Parsing the request line and the header block of a request.

use vstd::hash_map::StringHashMap;
use vstd::pervasive::unreached;
use vstd::prelude::*;
use vstd::string::*;

use crate::method::{lemma_empty_token_names_no_method, lemma_method_name_roundtrip,
    spec_method_name, spec_method_of, Method};
use crate::text::{find_pair, find_pair_from, is_ws_char, lemma_find_pair_at,
    lemma_find_pair_from, lemma_str_map_view_empty, lemma_str_map_view_insert,
    lemma_ws_tokens_pair, lemma_ws_tokens_single, lemma_ws_tokens_three, split_ws, str_map_view,
    ws_tokens_from};

verus! {

/// One line handed to the parser by the transport: either the text of the
/// line (without its terminator) or a read that failed.
#[derive(Debug)]
pub enum InputLine {
    Line(String),
    Failed,
}

/// Errors from [`Header::parse`].
#[derive(Debug, PartialEq, Eq)]
pub enum HeaderError {
    /// There was no first line, or it was empty.
    Empty,
    /// The method token matches no method of the enumeration; the payload
    /// is the offending token.
    InvalidMethod(String),
    /// The request line has a method but no second token.
    MissingPath,
    /// The request line has a method and a URI but no third token.
    MissingVersion,
    /// A read failed while the header block was being consumed.
    ParamError,
}

/// The parsed request, as the contracts see it.
pub ghost struct HeaderModel {
    pub method: Method,
    pub uri: Seq<char>,
    pub version: Seq<char>,
    pub fields: Map<Seq<char>, Seq<char>>,
}

/// Why the parse was rejected, as the contracts see it.
pub ghost enum Rejection {
    Empty,
    InvalidMethod(Seq<char>),
    MissingPath,
    MissingVersion,
    ParamError,
}

/// Whether the exec error reports the model rejection.
pub open spec fn spec_error_matches(e: HeaderError, g: Rejection) -> bool {
    match e {
        HeaderError::Empty => g is Empty,
        HeaderError::InvalidMethod(t) => g matches Rejection::InvalidMethod(s) && t@ == s,
        HeaderError::MissingPath => g is MissingPath,
        HeaderError::MissingVersion => g is MissingVersion,
        HeaderError::ParamError => g is ParamError,
    }
}

/// The text of a line event; a failed read has none.
pub open spec fn spec_line_text(l: InputLine) -> Seq<char> {
    match l {
        InputLine::Line(s) => s@,
        InputLine::Failed => Seq::empty(),
    }
}

/// One header line folded into the accumulated fields.  The line splits at
/// the first `": "`; a line without the separator, or one whose name part
/// is empty, contributes nothing.  Otherwise the value is everything after
/// the separator, and a repeated name overwrites the earlier value.
pub open spec fn spec_header_step(acc: Map<Seq<char>, Seq<char>>, s: Seq<char>) -> Map<
    Seq<char>,
    Seq<char>,
> {
    let cut = find_pair_from(s, ':', ' ', 0);
    if cut >= s.len() {
        acc
    } else if cut == 0 {
        acc
    } else {
        acc.insert(s.subrange(0, cut), s.subrange(cut + 2, s.len() as int))
    }
}

/// The header fields gathered from `lines[i..]`, extending `acc`, stopping
/// at the first blank line or the end of input.  A failed read aborts the
/// whole parse (`None`).
pub open spec fn spec_fields_from(
    lines: Seq<InputLine>,
    i: int,
    acc: Map<Seq<char>, Seq<char>>,
) -> Option<Map<Seq<char>, Seq<char>>>
    decreases lines.len() - i,
{
    if i < 0 || i >= lines.len() {
        Some(acc)
    } else {
        match lines[i] {
            InputLine::Failed => None,
            InputLine::Line(s) => if s@.len() == 0 {
                Some(acc)
            } else {
                spec_fields_from(lines, i + 1, spec_header_step(acc, s@))
            },
        }
    }
}

/// What parsing yields on the given lines.  The first line is the request
/// line; it is tokenized on whitespace and must carry a known method, a
/// URI and a version.  The remaining lines up to the first blank one are
/// folded into the field map.
pub open spec fn spec_parse(lines: Seq<InputLine>) -> Result<HeaderModel, Rejection> {
    if lines.len() == 0 {
        Err(Rejection::Empty)
    } else {
        let first = spec_line_text(lines[0]);
        if first.len() == 0 {
            Err(Rejection::Empty)
        } else {
            let toks = ws_tokens_from(first, 0);
            let mtok: Seq<char> = if toks.len() == 0 {
                Seq::empty()
            } else {
                toks[0]
            };
            match spec_method_of(mtok) {
                None => Err(Rejection::InvalidMethod(mtok)),
                Some(m) => if toks.len() == 1 {
                    Err(Rejection::MissingPath)
                } else if toks.len() == 2 {
                    Err(Rejection::MissingVersion)
                } else {
                    match spec_fields_from(lines, 1, Map::empty()) {
                        None => Err(Rejection::ParamError),
                        Some(fields) => Ok(
                            HeaderModel { method: m, uri: toks[1], version: toks[2], fields },
                        ),
                    }
                },
            }
        }
    }
}

/// For every request line whose whitespace tokens are a known method
/// followed by at least a path and a version token, parsing succeeds and
/// returns exactly that method, path and version, provided no read fails
/// in the header block.
pub proof fn lemma_valid_request_line_parses(lines: Seq<InputLine>, m: Method)
    requires
        lines.len() > 0,
        lines[0] is Line,
        spec_line_text(lines[0]).len() > 0,
        ws_tokens_from(spec_line_text(lines[0]), 0).len() >= 3,
        spec_method_of(ws_tokens_from(spec_line_text(lines[0]), 0)[0]) == Some(m),
        spec_fields_from(lines, 1, Map::empty()) is Some,
    ensures
        spec_parse(lines) matches Ok(h) && h.method == m && h.uri == ws_tokens_from(
            spec_line_text(lines[0]),
            0,
        )[1] && h.version == ws_tokens_from(spec_line_text(lines[0]), 0)[2],
{
}

/// A request line with a known method but a missing URI or version token
/// is rejected deterministically by token count: a lone method token
/// yields `MissingPath`, a method with a URI but no version yields
/// `MissingVersion`.
pub proof fn lemma_missing_tokens_rejected(lines: Seq<InputLine>, m: Method)
    requires
        lines.len() > 0,
        lines[0] is Line,
        spec_line_text(lines[0]).len() > 0,
        ws_tokens_from(spec_line_text(lines[0]), 0).len() >= 1,
        spec_method_of(ws_tokens_from(spec_line_text(lines[0]), 0)[0]) == Some(m),
    ensures
        ws_tokens_from(spec_line_text(lines[0]), 0).len() == 1 ==> spec_parse(lines) == Err::<
            HeaderModel,
            _,
        >(Rejection::MissingPath),
        ws_tokens_from(spec_line_text(lines[0]), 0).len() == 2 ==> spec_parse(lines) == Err::<
            HeaderModel,
            _,
        >(Rejection::MissingVersion),
{
}

/// For every request line `"<METHOD> <PATH> <VERSION>"` — a known
/// method's name, a path and a version joined by single spaces, the
/// latter two non-empty and free of whitespace — parsing succeeds and
/// returns exactly that method, path and version, provided no read fails
/// in the header block.
pub proof fn lemma_request_line_roundtrip(
    lines: Seq<InputLine>,
    m: Method,
    path: Seq<char>,
    version: Seq<char>,
)
    requires
        lines.len() > 0,
        lines[0] is Line,
        spec_line_text(lines[0]) == spec_method_name(m) + seq![' '] + path + seq![' '] + version,
        path.len() > 0,
        version.len() > 0,
        forall|k: int| 0 <= k < path.len() ==> !is_ws_char(path[k]),
        forall|k: int| 0 <= k < version.len() ==> !is_ws_char(version[k]),
        spec_fields_from(lines, 1, Map::empty()) is Some,
    ensures
        spec_parse(lines) matches Ok(h) && h.method == m && h.uri == path && h.version == version,
{
    lemma_method_name_roundtrip(m);
    lemma_ws_tokens_three(spec_method_name(m), path, version);
    lemma_valid_request_line_parses(lines, m);
}

/// A request line carrying only a known method's name is rejected with
/// `MissingPath`; one carrying the method's name and a path, but no
/// version, is rejected with `MissingVersion`.
pub proof fn lemma_short_request_line_rejected(lines: Seq<InputLine>, m: Method, path: Seq<char>)
    requires
        lines.len() > 0,
        lines[0] is Line,
        path.len() > 0,
        forall|k: int| 0 <= k < path.len() ==> !is_ws_char(path[k]),
    ensures
        spec_line_text(lines[0]) == spec_method_name(m) ==> spec_parse(lines) == Err::<
            HeaderModel,
            _,
        >(Rejection::MissingPath),
        spec_line_text(lines[0]) == spec_method_name(m) + seq![' '] + path ==> spec_parse(lines)
            == Err::<HeaderModel, _>(Rejection::MissingVersion),
{
    lemma_method_name_roundtrip(m);
    if spec_line_text(lines[0]) == spec_method_name(m) {
        lemma_ws_tokens_single(spec_method_name(m));
        lemma_missing_tokens_rejected(lines, m);
    }
    if spec_line_text(lines[0]) == spec_method_name(m) + seq![' '] + path {
        lemma_ws_tokens_pair(spec_method_name(m), path);
        lemma_missing_tokens_rejected(lines, m);
    }
}

/// `name` nowhere contains the `": "` separator.
pub open spec fn spec_plain_name(name: Seq<char>) -> bool {
    forall|t: int| 0 <= t < name.len() - 1 ==> !((#[trigger] name[t]) == ':' && name[t + 1] == ' ')
}

/// A well-formed header line `Name: Value` whose name is non-empty and
/// free of the separator contributes exactly its pair to the fields.
pub proof fn lemma_header_line_wellformed(
    acc: Map<Seq<char>, Seq<char>>,
    name: Seq<char>,
    value: Seq<char>,
)
    requires
        name.len() > 0,
        spec_plain_name(name),
    ensures
        spec_header_step(acc, name + seq![':', ' '] + value) == acc.insert(name, value),
{
    let s = name + seq![':', ' '] + value;
    let j = name.len() as int;
    assert(s[j] == ':');
    assert(s[j + 1] == ' ');
    assert forall|k: int| 0 <= k < j implies !((#[trigger] s[k]) == ':' && s[k + 1] == ' ') by {
        if k + 1 < j {
            assert(s[k] == name[k]);
            assert(s[k + 1] == name[k + 1]);
        } else {
            assert(s[k + 1] == ':');
        }
    }
    lemma_find_pair_at(s, ':', ' ', 0, j);
    assert(s.subrange(0, j) =~= name);
    assert(s.subrange(j + 2, s.len() as int) =~= value);
}

/// A malformed header line — one in which `": "` never occurs —
/// contributes nothing: the fields are unchanged.
pub proof fn lemma_header_line_malformed(acc: Map<Seq<char>, Seq<char>>, s: Seq<char>)
    requires
        spec_plain_name(s),
    ensures
        spec_header_step(acc, s) == acc,
{
    lemma_find_pair_from(s, ':', ' ', 0);
    let cut = find_pair_from(s, ':', ' ', 0);
    if cut < s.len() {
        assert(s[cut] == ':' && s[cut + 1] == ' ');
        assert(false);
    }
}

/// The pairs folded into `acc` in order, a later pair overwriting an
/// earlier one with the same name.
pub open spec fn spec_insert_entries(
    acc: Map<Seq<char>, Seq<char>>,
    names: Seq<Seq<char>>,
    values: Seq<Seq<char>>,
) -> Map<Seq<char>, Seq<char>>
    decreases names.len(),
{
    if names.len() == 0 || values.len() == 0 {
        acc
    } else {
        spec_insert_entries(acc.insert(names[0], values[0]), names.drop_first(), values.drop_first())
    }
}

/// A block of well-formed header lines at `i`, ended by a blank line or
/// the end of input, folds to exactly the corresponding pairs on top of
/// `acc`.
pub proof fn lemma_header_block_entries(
    lines: Seq<InputLine>,
    i: int,
    names: Seq<Seq<char>>,
    values: Seq<Seq<char>>,
    acc: Map<Seq<char>, Seq<char>>,
)
    requires
        0 <= i,
        i + names.len() <= lines.len(),
        values.len() == names.len(),
        forall|k: int|
            0 <= k < names.len() ==> (#[trigger] names[k]).len() > 0 && spec_plain_name(names[k]),
        forall|k: int|
            0 <= k < names.len() ==> (#[trigger] lines[i + k]) is Line && spec_line_text(
                lines[i + k],
            ) == names[k] + seq![':', ' '] + values[k],
        i + names.len() < lines.len() ==> lines[i + names.len()] is Line && spec_line_text(
            lines[i + names.len()],
        ).len() == 0,
    ensures
        spec_fields_from(lines, i, acc) == Some(spec_insert_entries(acc, names, values)),
    decreases names.len(),
{
    if names.len() == 0 {
    } else {
        assert(lines[i + 0] is Line && spec_line_text(lines[i + 0]) == names[0] + seq![':', ' ']
            + values[0]);
        lemma_header_line_wellformed(acc, names[0], values[0]);
        let acc1 = acc.insert(names[0], values[0]);
        let names1 = names.drop_first();
        let values1 = values.drop_first();
        assert forall|k: int| 0 <= k < names1.len() implies (#[trigger] names1[k]).len() > 0
            && spec_plain_name(names1[k]) by {
            assert(names1[k] == names[k + 1]);
        }
        assert forall|k: int| 0 <= k < names1.len() implies (#[trigger] lines[i + 1 + k]) is Line
            && spec_line_text(lines[i + 1 + k]) == names1[k] + seq![':', ' '] + values1[k] by {
            assert(names1[k] == names[k + 1]);
            assert(values1[k] == values[k + 1]);
            assert(lines[i + (k + 1)] is Line && spec_line_text(lines[i + (k + 1)]) == names[k + 1]
                + seq![':', ' '] + values[k + 1]);
        }
        lemma_header_block_entries(lines, i + 1, names1, values1, acc1);
    }
}

/// With distinct names, the folded map holds exactly the given pairs on
/// top of `acc`: each pair is present, and nothing else joined the map.
pub proof fn lemma_insert_entries_distinct(
    acc: Map<Seq<char>, Seq<char>>,
    names: Seq<Seq<char>>,
    values: Seq<Seq<char>>,
)
    requires
        values.len() == names.len(),
        forall|k1: int, k2: int|
            0 <= k1 < k2 < names.len() ==> #[trigger] names[k1] != #[trigger] names[k2],
    ensures
        forall|k: int|
            0 <= k < names.len() ==> spec_insert_entries(acc, names, values).contains_key(
                #[trigger] names[k],
            ) && spec_insert_entries(acc, names, values)[names[k]] == values[k],
        forall|p: Seq<char>|
            #[trigger] spec_insert_entries(acc, names, values).contains_key(p)
                ==> acc.contains_key(p) || names.contains(p),
        forall|p: Seq<char>|
            acc.contains_key(p) && !names.contains(p) ==> spec_insert_entries(
                acc,
                names,
                values,
            ).contains_key(p) && spec_insert_entries(acc, names, values)[p] == acc[p],
    decreases names.len(),
{
    let m = spec_insert_entries(acc, names, values);
    if names.len() > 0 {
        let acc1 = acc.insert(names[0], values[0]);
        let names1 = names.drop_first();
        let values1 = values.drop_first();
        assert(m == spec_insert_entries(acc1, names1, values1));
        assert forall|j: int| 0 <= j < names1.len() implies #[trigger] names1[j] == names[j
            + 1] by {}
        assert forall|k1: int, k2: int| 0 <= k1 < k2 < names1.len() implies #[trigger] names1[k1]
            != #[trigger] names1[k2] by {
            assert(names1[k1] == names[k1 + 1]);
            assert(names1[k2] == names[k2 + 1]);
        }
        lemma_insert_entries_distinct(acc1, names1, values1);
        assert forall|p: Seq<char>| #[trigger] names1.contains(p) implies names.contains(p) by {
            let j = choose|j: int| 0 <= j < names1.len() && names1[j] == p;
            assert(names[j + 1] == p);
        }
        assert(names.contains(names[0])) by {
            assert(names[0] == names[0]);
        }
        assert(!names1.contains(names[0])) by {
            if names1.contains(names[0]) {
                let j = choose|j: int| 0 <= j < names1.len() && names1[j] == names[0];
                assert(names[j + 1] == names[0]);
            }
        }
        assert forall|k: int| 0 <= k < names.len() implies m.contains_key(#[trigger] names[k])
            && m[names[k]] == values[k] by {
            if k == 0 {
                assert(acc1.contains_key(names[0]) && acc1[names[0]] == values[0]);
                assert(m.contains_key(names[0]) && m[names[0]] == acc1[names[0]]);
            } else {
                assert(names1[k - 1] == names[k]);
                assert(values1[k - 1] == values[k]);
            }
        }
        assert forall|p: Seq<char>| #[trigger] m.contains_key(p) implies acc.contains_key(p)
            || names.contains(p) by {
            if !acc.contains_key(p) && !names1.contains(p) {
                assert(acc1.contains_key(p));
                assert(p == names[0]);
            }
        }
        assert forall|p: Seq<char>| acc.contains_key(p) && !names.contains(p) implies
            m.contains_key(p) && m[p] == acc[p] by {
            assert(p != names[0]);
            assert(acc1.contains_key(p) && acc1[p] == acc[p]);
            assert(!names1.contains(p));
        }
    }
}

/// For every header block of well-formed `Name: Value` lines with
/// distinct names, followed by a blank line or the end of input, the
/// resulting field map holds exactly those pairs.  A malformed line (one
/// without the `": "` separator) contributes nothing and leaves the other
/// entries unchanged; see [`lemma_header_line_malformed`].
pub proof fn lemma_header_block_pairs(
    lines: Seq<InputLine>,
    names: Seq<Seq<char>>,
    values: Seq<Seq<char>>,
)
    requires
        1 + names.len() <= lines.len(),
        values.len() == names.len(),
        forall|k: int|
            0 <= k < names.len() ==> (#[trigger] names[k]).len() > 0 && spec_plain_name(names[k]),
        forall|k: int|
            0 <= k < names.len() ==> (#[trigger] lines[1 + k]) is Line && spec_line_text(
                lines[1 + k],
            ) == names[k] + seq![':', ' '] + values[k],
        1 + names.len() < lines.len() ==> lines[1 + names.len() as int] is Line
            && spec_line_text(lines[1 + names.len() as int]).len() == 0,
        forall|k1: int, k2: int|
            0 <= k1 < k2 < names.len() ==> #[trigger] names[k1] != #[trigger] names[k2],
    ensures
        ({
            &&& spec_fields_from(lines, 1, Map::empty()) matches Some(m)
            &&& forall|k: int|
                0 <= k < names.len() ==> m.contains_key(#[trigger] names[k]) && m[names[k]]
                    == values[k]
            &&& forall|p: Seq<char>| #[trigger] m.contains_key(p) ==> names.contains(p)
        }),
{
    lemma_header_block_entries(lines, 1, names, values, Map::empty());
    lemma_insert_entries_distinct(Map::empty(), names, values);
}

/// The request line and header fields of a request.
pub struct Header {
    pub method: Method,
    pub uri: String,
    pub version: String,
    pub headers: StringHashMap<String>,
}

impl Header {
    /// Parse a request from its lines: the request line first, then the
    /// header block up to a blank line or the end of input.  Lines after
    /// the blank line are ignored.
    ///
    /// The transport must have read the first line successfully (a request
    /// that produced no line at all parses to [`HeaderError::Empty`]).
    pub fn parse(lines: &Vec<InputLine>) -> (r: Result<Header, HeaderError>)
        requires
            lines@.len() > 0 ==> lines@[0] is Line,
        ensures
            ({
                let o = spec_parse(lines@);
                match r {
                    Ok(h) => o matches Ok(m) && h.method == m.method && h.uri@ == m.uri
                        && h.version@ == m.version && str_map_view(h.headers@) == m.fields,
                    Err(e) => o matches Err(g) && spec_error_matches(e, g),
                }
            }),
    {
        if lines.len() == 0 {
            return Err(HeaderError::Empty);
        }
        let first = match &lines[0] {
            InputLine::Line(s) => s,
            InputLine::Failed => unreached(),
        };
        if first.as_str().unicode_len() == 0 {
            return Err(HeaderError::Empty);
        }
        let toks = split_ws(first.as_str());
        if toks.len() == 0 {
            proof {
                lemma_empty_token_names_no_method();
            }
            return Err(HeaderError::InvalidMethod(String::new()));
        }
        let method = match Method::from_name(toks[0].as_str()) {
            None => {
                return Err(HeaderError::InvalidMethod(toks[0].clone()));
            },
            Some(m) => m,
        };
        if toks.len() == 1 {
            return Err(HeaderError::MissingPath);
        }
        if toks.len() == 2 {
            return Err(HeaderError::MissingVersion);
        }
        let mut header_values = StringHashMap::<String>::new();
        proof {
            lemma_str_map_view_empty();
        }
        let mut i: usize = 1;
        while i < lines.len()
            invariant
                1 <= i <= lines@.len(),
                lines@[0] is Line,
                spec_line_text(lines@[0]).len() > 0,
                toks.deep_view() == ws_tokens_from(spec_line_text(lines@[0]), 0),
                toks@.len() >= 3,
                spec_method_of(toks.deep_view()[0]) == Some(method),
                spec_fields_from(lines@, 1, Map::empty()) == spec_fields_from(
                    lines@,
                    i as int,
                    str_map_view(header_values@),
                ),
            ensures
                spec_fields_from(lines@, 1, Map::empty()) == Some(str_map_view(header_values@)),
            decreases lines@.len() - i,
        {
            let ghost acc = str_map_view(header_values@);
            match &lines[i] {
                InputLine::Failed => {
                    return Err(HeaderError::ParamError);
                },
                InputLine::Line(h) => {
                    let hlen = h.as_str().unicode_len();
                    if hlen == 0 {
                        break;
                    }
                    let cut = find_pair(h.as_str(), ':', ' ', 0);
                    proof {
                        lemma_find_pair_from(h@, ':', ' ', 0);
                    }
                    if cut < hlen && cut > 0 {
                        let key = h.as_str().substring_char(0, cut).to_owned();
                        let value = h.as_str().substring_char(cut + 2, hlen).to_owned();
                        proof {
                            lemma_str_map_view_insert(header_values@, key@, value);
                            assert(spec_header_step(acc, h@) == acc.insert(key@, value@));
                        }
                        header_values.insert(key, value);
                    } else {
                        proof {
                            assert(spec_header_step(acc, h@) == acc);
                        }
                    }
                    i = i + 1;
                },
            }
        }
        Ok(
            Header {
                method,
                uri: toks[1].clone(),
                version: toks[2].clone(),
                headers: header_values,
            },
        )
    }
}

} // verus!
