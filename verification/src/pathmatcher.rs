//! Splitting a raw path into its path part and parameter map, reporting a
//! duplicated parameter as a plain text message.
//!
//! Unlike [`crate::uri_parser::UriValues::from`], this splitter accepts an
//! empty path part.

use vstd::hash_map::StringHashMap;
use vstd::pervasive::unreached;
use vstd::prelude::*;
use vstd::string::*;

use crate::text::{find_char, find_char_from, lemma_find_char_from, str_map_view};
use crate::uri_parser::{spec_path_of, spec_query_of, spec_uri_params, UriParseError, UriValues};

verus! {

/// Split `path` at the first `?` into the path part and the parameter map
/// of the query part.  Fails, with a message naming the key, only when a
/// query key occurs twice.
pub fn parse_path(path: &str) -> (r: Result<(String, StringHashMap<String>), String>)
    ensures
        ({
            let o = spec_uri_params(path@);
            match r {
                Ok(pair) => pair.0@ == spec_path_of(path@) && o == Ok::<_, Seq<char>>(
                    str_map_view(pair.1@),
                ),
                Err(msg) => o matches Err(k) && msg@ == "Duplicate parameter "@ + k,
            }
        }),
{
    let path_end_index = find_char(path, '?', 0);
    let n = path.unicode_len();
    proof {
        lemma_find_char_from(path@, '?', 0);
    }
    let path_part = path.substring_char(0, path_end_index).to_owned();
    let params = if path_end_index == n {
        proof {
            reveal_strlit("");
            assert(""@ =~= spec_query_of(path@));
        }
        UriValues::create_params_map("")
    } else {
        UriValues::create_params_map(path.substring_char(path_end_index + 1, n))
    };
    match params {
        Ok(map) => Ok((path_part, map)),
        Err(UriParseError::DuplicateKey(key)) => Err(
            String::from_str("Duplicate parameter ").concat(key.as_str()),
        ),
        Err(UriParseError::MissingPath) => unreached(),
    }
}

} // verus!
