//! Splitting a request URI into its path and query parameters.

use vstd::hash_map::StringHashMap;
use vstd::prelude::*;
use vstd::string::*;

use crate::text::{find_char, find_char_from, lemma_find_char_from, lemma_str_map_view_contains,
    lemma_str_map_view_empty, lemma_str_map_view_insert, split_char_from, split_on_char,
    str_map_view};

verus! {

/// Why a URI failed to parse.
#[derive(Debug, PartialEq, Eq)]
pub enum UriParseError {
    /// The URI is empty or starts with `?`, so it names no path.
    MissingPath,
    /// The same query key appeared twice; the payload is the key.
    DuplicateKey(String),
}

/// The path and query parameters of a request URI.
pub struct UriValues {
    pub path: String,
    pub parameters: StringHashMap<String>,
}

/// The key/value pair denoted by one `&`-separated query token.  A token
/// counts only if it contains exactly one `=`: the key is everything
/// before it, the value everything after.  Other tokens are dropped.
pub open spec fn spec_param_kv(t: Seq<char>) -> Option<(Seq<char>, Seq<char>)> {
    let i = find_char_from(t, '=', 0);
    if i == t.len() {
        None
    } else if find_char_from(t, '=', i + 1) != t.len() {
        None
    } else {
        Some((t.subrange(0, i), t.subrange(i + 1, t.len() as int)))
    }
}

/// The parameter map described by the query tokens from index `i` on,
/// extending the pairs accumulated so far.  `Err` carries the first key
/// that occurred twice; the whole parse is then discarded.
pub open spec fn spec_params_from(
    toks: Seq<Seq<char>>,
    i: int,
    acc: Map<Seq<char>, Seq<char>>,
) -> Result<Map<Seq<char>, Seq<char>>, Seq<char>>
    decreases toks.len() - i,
{
    if i < 0 || i >= toks.len() {
        Ok(acc)
    } else {
        match spec_param_kv(toks[i]) {
            None => spec_params_from(toks, i + 1, acc),
            Some(kv) => if acc.contains_key(kv.0) {
                Err(kv.0)
            } else {
                spec_params_from(toks, i + 1, acc.insert(kv.0, kv.1))
            },
        }
    }
}

/// The path portion of a URI: everything before the first `?` (the whole
/// URI when there is none).
pub open spec fn spec_path_of(u: Seq<char>) -> Seq<char> {
    u.subrange(0, find_char_from(u, '?', 0))
}

/// The query portion of a URI: everything after the first `?`, or empty
/// when there is none.
pub open spec fn spec_query_of(u: Seq<char>) -> Seq<char> {
    let cut = find_char_from(u, '?', 0);
    if cut == u.len() {
        Seq::empty()
    } else {
        u.subrange(cut + 1, u.len() as int)
    }
}

/// The parameter map of a URI's query string, or the first duplicated key.
pub open spec fn spec_uri_params(u: Seq<char>) -> Result<Map<Seq<char>, Seq<char>>, Seq<char>> {
    spec_params_from(split_char_from(spec_query_of(u), '&', 0), 0, Map::empty())
}

impl UriValues {
    /// Build the parameter map from a raw query string (everything after
    /// the `?`).  Fails only on a duplicated key.
    pub(crate) fn create_params_map(params_string: &str) -> (r: Result<
        StringHashMap<String>,
        UriParseError,
    >)
        ensures
            ({
                let o = spec_params_from(split_char_from(params_string@, '&', 0), 0, Map::empty());
                match r {
                    Ok(m) => o == Ok::<_, Seq<char>>(str_map_view(m@)),
                    Err(e) => match e {
                        UriParseError::DuplicateKey(k) => o == Err::<
                            Map<Seq<char>, Seq<char>>,
                            _,
                        >(k@),
                        UriParseError::MissingPath => false,
                    },
                }
            }),
    {
        let mut params_map = StringHashMap::<String>::new();
        let parts = split_on_char(params_string, '&');
        let ghost toks = split_char_from(params_string@, '&', 0);
        proof {
            lemma_str_map_view_empty();
        }
        let mut idx: usize = 0;
        while idx < parts.len()
            invariant
                idx <= parts.len(),
                toks == split_char_from(params_string@, '&', 0),
                parts.deep_view() == toks,
                spec_params_from(toks, 0, Map::empty()) == spec_params_from(
                    toks,
                    idx as int,
                    str_map_view(params_map@),
                ),
            decreases parts.len() - idx,
        {
            let ghost acc = str_map_view(params_map@);
            let param = &parts[idx];
            proof {
                assert(toks[idx as int] == param@);
            }
            let plen = param.as_str().unicode_len();
            let eq = find_char(param.as_str(), '=', 0);
            proof {
                lemma_find_char_from(param@, '=', 0);
            }
            if eq < plen {
                let second = find_char(param.as_str(), '=', eq + 1);
                if second == plen {
                    let key = param.as_str().substring_char(0, eq).to_owned();
                    let value = param.as_str().substring_char(eq + 1, plen).to_owned();
                    proof {
                        assert(spec_param_kv(toks[idx as int]) == Some((key@, value@)));
                        lemma_str_map_view_contains(params_map@, key@);
                    }
                    if params_map.contains_key(key.as_str()) {
                        proof {
                            assert(spec_params_from(toks, idx as int, acc) == Err::<
                                Map<Seq<char>, Seq<char>>,
                                _,
                            >(key@));
                        }
                        return Err(UriParseError::DuplicateKey(key));
                    }
                    proof {
                        lemma_str_map_view_insert(params_map@, key@, value);
                        assert(spec_params_from(toks, idx as int, acc) == spec_params_from(
                            toks,
                            idx + 1,
                            acc.insert(key@, value@),
                        ));
                    }
                    params_map.insert(key, value);
                } else {
                    proof {
                        assert(spec_param_kv(toks[idx as int]) is None);
                    }
                }
            } else {
                proof {
                    assert(spec_param_kv(toks[idx as int]) is None);
                }
            }
            idx = idx + 1;
        }
        Ok(params_map)
    }

    /// Split a request URI into its path and its query parameters.
    ///
    /// The first `?` separates path from query.  An empty path is
    /// rejected with [`UriParseError::MissingPath`]; a duplicated query
    /// key rejects the whole URI with [`UriParseError::DuplicateKey`].
    pub fn from(uri: &str) -> (r: Result<UriValues, UriParseError>)
        ensures
            ({
                let u = uri@;
                let cut = find_char_from(u, '?', 0);
                match r {
                    Ok(v) => cut != 0 && v.path@ == spec_path_of(u) && spec_uri_params(u) == Ok::<
                        _,
                        Seq<char>,
                    >(str_map_view(v.parameters@)),
                    Err(e) => match e {
                        UriParseError::MissingPath => cut == 0,
                        UriParseError::DuplicateKey(k) => cut != 0 && spec_uri_params(u) == Err::<
                            Map<Seq<char>, Seq<char>>,
                            _,
                        >(k@),
                    },
                }
            }),
    {
        let path_end_index = find_char(uri, '?', 0);
        if path_end_index == 0 {
            return Err(UriParseError::MissingPath);
        }
        let n = uri.unicode_len();
        proof {
            lemma_find_char_from(uri@, '?', 0);
        }
        let path = uri.substring_char(0, path_end_index).to_owned();
        let params = if path_end_index == n {
            proof {
                reveal_strlit("");
                assert(""@ =~= spec_query_of(uri@));
            }
            Self::create_params_map("")
        } else {
            Self::create_params_map(uri.substring_char(path_end_index + 1, n))
        };
        match params {
            Ok(map) => Ok(UriValues { path, parameters: map }),
            Err(e) => Err(e),
        }
    }
}

} // verus!
