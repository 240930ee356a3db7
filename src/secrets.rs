//! Secret values that may refer to a variable of the process environment.
use vstd::prelude::*;

verus! {

/// The character that marks a secret value as a reference to a variable.
pub const REFERENCE_MARKER: char = '$';

/// The variable name that a secret value refers to, if it carries the marker.
pub open spec fn reference_name(v: Seq<char>) -> Option<Seq<char>> {
    if v.len() > 0 && v[0] == REFERENCE_MARKER {
        Some(v.drop_first())
    } else {
        None
    }
}

/// What a secret value resolves to, given the variable's value when the
/// secret is a reference: the variable's value when it is set, else the
/// literal value itself, marker included.
pub open spec fn resolved_secret(v: Seq<char>, env_value: Option<String>) -> Seq<char> {
    match reference_name(v) {
        Some(_) => match env_value {
            Some(x) => x@,
            None => v,
        },
        None => v,
    }
}

/// The name of the environment variable to look up for a secret value, or
/// `None` when the value is a literal.
pub fn secret_reference(value: &String) -> (r: Option<String>)
    ensures
        match r {
            Some(n) => reference_name(value@) == Some(n@),
            None => reference_name(value@) is None,
        },
{
    let s = value.as_str();
    let n = s.unicode_len();
    if n > 0 && s.get_char(0) == REFERENCE_MARKER {
        Some(s.substring_char(1, n).to_string())
    } else {
        None
    }
}

/// Resolves one secret value from the looked-up variable (ignored for a
/// literal value).
pub fn resolve_secret(value: &String, env_value: Option<String>) -> (r: String)
    ensures
        r@ == resolved_secret(value@, env_value),
{
    match secret_reference(value) {
        Some(_) => match env_value {
            Some(x) => x,
            None => value.clone(),
        },
        None => value.clone(),
    }
}

/// Resolves every secret of a map, `lookups[i]` being the environment's value
/// for the variable that `raw[i]` names (if it names one).
pub fn resolve_secrets(raw: &Vec<(String, String)>, lookups: &Vec<Option<String>>) -> (r: Vec<(String, String)>)
    requires
        lookups@.len() == raw@.len(),
    ensures
        r@.len() == raw@.len(),
        forall|i: int|
            0 <= i < raw@.len() ==> (#[trigger] r@[i]).0@ == raw@[i].0@ && r@[i].1@ == resolved_secret(
                raw@[i].1@,
                lookups@[i],
            ),
{
    let mut r: Vec<(String, String)> = Vec::new();
    let mut i: usize = 0;
    while i < raw.len()
        invariant
            i <= raw@.len(),
            lookups@.len() == raw@.len(),
            r@.len() == i,
            forall|k: int|
                0 <= k < i ==> (#[trigger] r@[k]).0@ == raw@[k].0@ && r@[k].1@ == resolved_secret(
                    raw@[k].1@,
                    lookups@[k],
                ),
        decreases raw@.len() - i,
    {
        let env_value = match &lookups[i] {
            Some(x) => Some(x.clone()),
            None => None,
        };
        let v = resolve_secret(&raw[i].1, env_value);
        let pair = &raw[i];
        let key: String = pair.0.clone();
        r.push((key, v));
        i = i + 1;
    }
    r
}

} // verus!
