//! Splitting a URL into its path part and parameter map, with a dedicated
//! error type.
//!
//! Like [`crate::pathmatcher::parse_path`], this splitter accepts an empty
//! path part; only a duplicated query key fails it.

use vstd::hash_map::StringHashMap;
use vstd::pervasive::unreached;
use vstd::prelude::*;
use vstd::string::*;

use crate::text::{find_char, find_char_from, lemma_find_char_from, str_map_view};
use crate::uri_parser::{spec_path_of, spec_query_of, spec_uri_params, UriParseError, UriValues};

verus! {

/// Why a URL failed to match.
#[derive(Debug, PartialEq, Eq)]
pub enum UrlMatcherErrors {
    /// The same query key appeared twice; the payload is the key.
    DuplicateKey(String),
}

impl UrlMatcherErrors {
    /// A human-readable account of the error.
    pub fn describe(&self) -> (text: String)
        ensures
            ({
                match self {
                    UrlMatcherErrors::DuplicateKey(k) => text@ == "Duplicate Key '"@ + k@ + "'"@,
                }
            }),
    {
        match self {
            UrlMatcherErrors::DuplicateKey(key) => String::from_str("Duplicate Key '").concat(
                key.as_str(),
            ).concat("'"),
        }
    }
}

/// Split `path` at the first `?` into the path part and the parameter map
/// of the query part.  Fails only when a query key occurs twice.
pub fn parse_url(path: &str) -> (r: Result<(String, StringHashMap<String>), UrlMatcherErrors>)
    ensures
        ({
            let o = spec_uri_params(path@);
            match r {
                Ok(pair) => pair.0@ == spec_path_of(path@) && o == Ok::<_, Seq<char>>(
                    str_map_view(pair.1@),
                ),
                Err(e) => match e {
                    UrlMatcherErrors::DuplicateKey(k) => o == Err::<
                        Map<Seq<char>, Seq<char>>,
                        _,
                    >(k@),
                },
            }
        }),
{
    let path_end_index = find_char(path, '?', 0);
    let n = path.unicode_len();
    proof {
        lemma_find_char_from(path@, '?', 0);
    }
    let path_part = path.substring_char(0, path_end_index).to_owned();
    let params = if path_end_index == n {
        proof {
            reveal_strlit("");
            assert(""@ =~= spec_query_of(path@));
        }
        UriValues::create_params_map("")
    } else {
        UriValues::create_params_map(path.substring_char(path_end_index + 1, n))
    };
    match params {
        Ok(map) => Ok((path_part, map)),
        Err(UriParseError::DuplicateKey(key)) => Err(UrlMatcherErrors::DuplicateKey(key)),
        Err(UriParseError::MissingPath) => unreached(),
    }
}

} // verus!
