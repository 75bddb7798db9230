//! A request line split on single spaces, and the field-collecting helper
//! used by the plain line-by-line handler.

use vstd::hash_map::StringHashMap;
use vstd::prelude::*;
use vstd::string::*;

use crate::method::{spec_method_of, Method};
use crate::text::{find_pair, find_pair_from, lemma_find_pair_from, lemma_str_map_view_empty,
    lemma_str_map_view_insert, split_char_from, split_on_char, str_map_view};

verus! {

/// The method, path and version tokens of a request line.
pub struct RequestData {
    pub method: Method,
    pub path: String,
    pub version: String,
}

/// Parse a request line by splitting it on single spaces: the first token
/// must name a method, and a second and third token must be present.
/// Note that the version field records the second token, like the path.
pub fn get_headers(line: &str) -> (r: Option<RequestData>)
    ensures
        ({
            let parts = split_char_from(line@, ' ', 0);
            match r {
                Some(d) => spec_method_of(parts[0]) == Some(d.method) && parts.len() >= 3
                    && d.path@ == parts[1] && d.version@ == parts[1],
                None => spec_method_of(parts[0]) is None || parts.len() < 3,
            }
        }),
{
    let parts = split_on_char(line, ' ');
    proof {
        assert(parts.deep_view().len() >= 1);
        assert(parts.deep_view()[0] == parts@[0]@);
    }
    let method = match Method::from_name(parts[0].as_str()) {
        None => {
            return None;
        },
        Some(m) => m,
    };
    if parts.len() < 3 {
        return None;
    }
    Some(RequestData { method, path: parts[1].clone(), version: parts[1].clone() })
}

/// One line folded into the collected fields: the name is everything
/// before the first `": "` (the whole line when there is none), the value
/// is the fragment between the first and the second `": "`; a line with an
/// empty name contributes nothing.
pub open spec fn spec_field_step(acc: Map<Seq<char>, Seq<char>>, s: Seq<char>) -> Map<
    Seq<char>,
    Seq<char>,
> {
    let cut = find_pair_from(s, ':', ' ', 0);
    if cut >= s.len() {
        if s.len() == 0 {
            acc
        } else {
            acc.insert(s, Seq::empty())
        }
    } else if cut == 0 {
        acc
    } else {
        let stop = find_pair_from(s, ':', ' ', cut + 2);
        let value_end: int = if stop >= s.len() {
            s.len() as int
        } else {
            stop
        };
        acc.insert(s.subrange(0, cut), s.subrange(cut + 2, value_end))
    }
}

/// The fields collected from `ls[i..]`, extending `acc`.
pub open spec fn spec_fields_of(ls: Seq<Seq<char>>, i: int, acc: Map<Seq<char>, Seq<char>>) -> Map<
    Seq<char>,
    Seq<char>,
>
    decreases ls.len() - i,
{
    if i < 0 || i >= ls.len() {
        acc
    } else {
        spec_fields_of(ls, i + 1, spec_field_step(acc, ls[i]))
    }
}

/// Collect `Name: Value` fields from already-read header lines, one entry
/// per line as [`spec_field_step`] describes.
pub fn collect_header_fields(lines: &Vec<String>) -> (fields: StringHashMap<String>)
    ensures
        str_map_view(fields@) == spec_fields_of(lines.deep_view(), 0, Map::empty()),
{
    let mut fields = StringHashMap::<String>::new();
    proof {
        lemma_str_map_view_empty();
    }
    let mut i: usize = 0;
    while i < lines.len()
        invariant
            i <= lines@.len(),
            spec_fields_of(lines.deep_view(), 0, Map::empty()) == spec_fields_of(
                lines.deep_view(),
                i as int,
                str_map_view(fields@),
            ),
        decreases lines@.len() - i,
    {
        let ghost acc = str_map_view(fields@);
        let line = &lines[i];
        proof {
            assert(lines.deep_view()[i as int] == line@);
        }
        let n = line.as_str().unicode_len();
        let cut = find_pair(line.as_str(), ':', ' ', 0);
        proof {
            lemma_find_pair_from(line@, ':', ' ', 0);
        }
        if cut >= n {
            if n > 0 {
                let key = line.clone();
                let value = String::new();
                proof {
                    assert(value@ =~= Seq::<char>::empty());
                    lemma_str_map_view_insert(fields@, key@, value);
                    assert(spec_field_step(acc, line@) == acc.insert(line@, Seq::empty()));
                }
                fields.insert(key, value);
            }
        } else if cut > 0 {
            let stop = find_pair(line.as_str(), ':', ' ', cut + 2);
            proof {
                lemma_find_pair_from(line@, ':', ' ', cut as int + 2);
            }
            let value_end = if stop >= n {
                n
            } else {
                stop
            };
            let key = line.as_str().substring_char(0, cut).to_owned();
            let value = line.as_str().substring_char(cut + 2, value_end).to_owned();
            proof {
                lemma_str_map_view_insert(fields@, key@, value);
                assert(spec_field_step(acc, line@) == acc.insert(key@, value@));
            }
            fields.insert(key, value);
        }
        i = i + 1;
    }
    fields
}

} // verus!
