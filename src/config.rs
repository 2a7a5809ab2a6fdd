//! The query's configuration: fields, endpoint and query parameters, with defaults.
use crate::path::strings_view;
use vstd::prelude::*;
use vstd::string::StrSliceExecFns;

verus! {

/// The fields shown when the caller names none.
pub open spec fn default_field_names() -> Seq<Seq<char>> {
    seq!["stack"@, "stage"@, "app/0"@, "arn"@]
}

/// The endpoint queried when the caller names none.
pub open spec fn default_endpoint_name() -> Seq<char> {
    "instances"@
}

/// The fields shown when the caller names none: stack, stage, first app, ARN.
pub fn default_fields() -> (r: Vec<String>)
    ensures
        strings_view(r@) == default_field_names(),
{
    let r = vec!["stack".to_owned(), "stage".to_owned(), "app/0".to_owned(), "arn".to_owned()];
    assert(strings_view(r@) =~= default_field_names());
    r
}

/// What one query parameter is made of.
pub open spec fn key_value_split(s: Seq<char>) -> Option<(Seq<char>, Seq<char>)> {
    if exists|p: int| 0 <= p < s.len() && s[p] == '=' {
        let p = choose|p: int|
            0 <= p < s.len() && s[p] == '=' && forall|k: int| 0 <= k < p ==> s[k] != '=';
        Some((s.take(p), s.skip(p + 1)))
    } else {
        None
    }
}

/// Splits `KEY=value` at its first `=`; `None` where there is no `=`.
pub fn parse_key_val(s: &str) -> (r: Option<(String, String)>)
    ensures
        match r {
            Some((k, v)) => key_value_split(s@) == Some((k@, v@)),
            None => key_value_split(s@) is None,
        },
{
    let n = s.unicode_len();
    let mut i: usize = 0;
    while i < n
        invariant
            n == s@.len(),
            i <= n,
            forall|k: int| 0 <= k < i ==> s@[k] != '=',
        decreases n - i,
    {
        if s.get_char(i) == '=' {
            let key = s.substring_char(0, i).to_owned();
            let value = s.substring_char(i + 1, n).to_owned();
            proof {
                let p = choose|p: int|
                    0 <= p < s@.len() && s@[p] == '=' && forall|k: int| 0 <= k < p ==> s@[k] != '=';
                assert(p == i) by {
                    if p < i {
                    } else if p > i {
                        assert(s@[i as int] == '=');
                    }
                }
                assert(key@ =~= s@.take(i as int));
                assert(value@ =~= s@.skip(i + 1));
            }
            return Some((key, value));
        }
        i = i + 1;
    }
    None
}

/// One query: which fields to show, from which endpoint, with which query parameters.
pub struct Config {
    pub fields: Vec<String>,
    pub endpoint: String,
    pub query: Vec<(String, String)>,
}

impl Config {
    /// Builds a configuration, taking the default fields and endpoint where none is given.
    pub fn new(fields: Option<Vec<String>>, endpoint: Option<String>, query: Vec<(String, String)>) -> (r: Config)
        ensures
            strings_view(r.fields@) == match fields {
                Some(f) => strings_view(f@),
                None => default_field_names(),
            },
            r.endpoint@ == match endpoint {
                Some(e) => e@,
                None => default_endpoint_name(),
            },
            r.query@ == query@,
    {
        let fields = match fields {
            Some(f) => f,
            None => default_fields(),
        };
        let endpoint = match endpoint {
            Some(e) => e,
            None => "instances".to_owned(),
        };
        Config { fields, endpoint, query }
    }
}

} // verus!
