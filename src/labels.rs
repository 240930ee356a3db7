//! Label maps held as vectors of key/value pairs, and their resolution.
use vstd::prelude::*;

verus! {

/// The map that a sequence of pairs denotes: a later pair overrides an
/// earlier one with the same key.
pub open spec fn label_map(s: Seq<(String, String)>) -> Map<Seq<char>, Seq<char>>
    decreases s.len(),
{
    if s.len() == 0 {
        Map::empty()
    } else {
        label_map(s.drop_last()).insert(s.last().0@, s.last().1@)
    }
}

/// No key occurs twice.
pub open spec fn keys_unique(s: Seq<(String, String)>) -> bool {
    forall|i: int, j: int| 0 <= i < j < s.len() ==> s[i].0@ != s[j].0@
}

/// All entries of a sequence of label sets, in declaration order.
pub open spec fn concat_entries(s: Seq<Vec<(String, String)>>) -> Seq<(String, String)>
    decreases s.len(),
{
    if s.len() == 0 {
        Seq::empty()
    } else {
        concat_entries(s.drop_last()) + s.last()@
    }
}

proof fn lemma_label_map_push(s: Seq<(String, String)>, p: (String, String))
    ensures
        label_map(s.push(p)) == label_map(s).insert(p.0@, p.1@),
{
    assert(s.push(p).drop_last() =~= s);
}

proof fn lemma_label_map_concat(s: Seq<(String, String)>, t: Seq<(String, String)>, p: (String, String))
    ensures
        label_map(s + t.push(p)) == label_map(s + t).insert(p.0@, p.1@),
{
    assert(s + t.push(p) =~= (s + t).push(p));
    lemma_label_map_push(s + t, p);
}

/// Overwriting the value of a present key in a pair sequence with unique keys.
proof fn lemma_label_map_update(s: Seq<(String, String)>, i: int, p: (String, String))
    requires
        keys_unique(s),
        0 <= i < s.len(),
        s[i].0@ == p.0@,
    ensures
        label_map(s.update(i, p)) == label_map(s).insert(p.0@, p.1@),
    decreases s.len(),
{
    let u = s.update(i, p);
    if i == s.len() - 1 {
        assert(u.drop_last() =~= s.drop_last());
        assert(label_map(u) =~= label_map(s).insert(p.0@, p.1@));
    } else {
        let d = s.drop_last();
        assert(u.drop_last() =~= d.update(i, p));
        assert(keys_unique(d));
        lemma_label_map_update(d, i, p);
        assert(s.last().0@ != p.0@);
        assert(label_map(u) =~= label_map(s).insert(p.0@, p.1@));
    }
}

/// In a pair sequence with unique keys, each pair is an entry of its map,
/// and each key of the map comes from a pair.
pub proof fn lemma_label_map_entries(s: Seq<(String, String)>)
    requires
        keys_unique(s),
    ensures
        forall|i: int|
            0 <= i < s.len() ==> label_map(s).contains_key((#[trigger] s[i]).0@) && label_map(s)[s[i].0@]
                == s[i].1@,
        forall|k: Seq<char>|
            #[trigger] label_map(s).contains_key(k) ==> exists|i: int| 0 <= i < s.len() && s[i].0@ == k,
    decreases s.len(),
{
    if s.len() > 0 {
        let d = s.drop_last();
        assert(keys_unique(d));
        lemma_label_map_entries(d);
        assert forall|i: int|
            0 <= i < s.len() implies label_map(s).contains_key((#[trigger] s[i]).0@) && label_map(s)[s[i].0@]
                == s[i].1@ by {
            if i < s.len() - 1 {
                assert(s[i] == d[i]);
                assert(s[i].0@ != s.last().0@);
            }
        }
        assert forall|k: Seq<char>| #[trigger] label_map(s).contains_key(k) implies exists|i: int|
            0 <= i < s.len() && s[i].0@ == k by {
            if k != s.last().0@ {
                assert(label_map(d).contains_key(k));
                let i = choose|i: int| 0 <= i < d.len() && d[i].0@ == k;
                assert(s[i] == d[i]);
            } else {
                assert(s[s.len() - 1].0@ == k);
            }
        }
    }
}

/// Later declarations win: in the flattened label sets, a pair whose key is
/// not declared again after it gives the key's value in the resolved map.
pub proof fn lemma_last_declaration_wins(entries: Seq<Vec<(String, String)>>, i: int)
    requires
        0 <= i < concat_entries(entries).len(),
        forall|j: int|
            i < j < concat_entries(entries).len() ==> (#[trigger] concat_entries(entries)[j]).0@
                != concat_entries(entries)[i].0@,
    ensures
        label_map(concat_entries(entries)).contains_key(concat_entries(entries)[i].0@),
        label_map(concat_entries(entries))[concat_entries(entries)[i].0@] == concat_entries(
            entries,
        )[i].1@,
{
    lemma_last_pair_wins(concat_entries(entries), i);
}

proof fn lemma_last_pair_wins(s: Seq<(String, String)>, i: int)
    requires
        0 <= i < s.len(),
        forall|j: int| i < j < s.len() ==> (#[trigger] s[j]).0@ != s[i].0@,
    ensures
        label_map(s).contains_key(s[i].0@),
        label_map(s)[s[i].0@] == s[i].1@,
    decreases s.len(),
{
    if i < s.len() - 1 {
        let d = s.drop_last();
        assert(s[s.len() - 1].0@ != s[i].0@);
        assert forall|j: int| i < j < d.len() implies (#[trigger] d[j]).0@ != d[i].0@ by {
            assert(d[j] == s[j]);
        }
        lemma_last_pair_wins(d, i);
    }
}

/// Index of the pair with the given key, if any.
fn find_key(pairs: &Vec<(String, String)>, key: &String) -> (r: Option<usize>)
    ensures
        match r {
            Some(i) => i < pairs@.len() && pairs@[i as int].0@ == key@,
            None => forall|i: int| 0 <= i < pairs@.len() ==> pairs@[i].0@ != key@,
        },
{
    let mut i: usize = 0;
    while i < pairs.len()
        invariant
            i <= pairs@.len(),
            forall|j: int| 0 <= j < i ==> pairs@[j].0@ != key@,
        decreases pairs@.len() - i,
    {
        if pairs[i].0 == *key {
            return Some(i);
        }
        i = i + 1;
    }
    None
}

/// Sets `key` to `value`, replacing the value of an existing pair with that
/// key, or appending a new pair.
pub fn set_label(pairs: &mut Vec<(String, String)>, key: &String, value: &String)
    requires
        keys_unique(old(pairs)@),
    ensures
        keys_unique(final(pairs)@),
        label_map(final(pairs)@) == label_map(old(pairs)@).insert(key@, value@),
{
    let p = (key.clone(), value.clone());
    match find_key(pairs, key) {
        Some(i) => {
            proof {
                lemma_label_map_update(pairs@, i as int, p);
            }
            pairs.set(i, p);
        },
        None => {
            proof {
                lemma_label_map_push(pairs@, p);
            }
            pairs.push(p);
        },
    }
}

/// Label maps that agree give agreeing maps once the same pairs follow.
proof fn lemma_label_map_append_congruent(a: Seq<(String, String)>, b: Seq<(String, String)>, t: Seq<(String, String)>)
    requires
        label_map(a) == label_map(b),
    ensures
        label_map(a + t) == label_map(b + t),
    decreases t.len(),
{
    if t.len() == 0 {
        assert(a + t =~= a);
        assert(b + t =~= b);
    } else {
        let d = t.drop_last();
        lemma_label_map_append_congruent(a, b, d);
        assert(d.push(t.last()) =~= t);
        lemma_label_map_concat(a, d, t.last());
        lemma_label_map_concat(b, d, t.last());
    }
}

/// Sets each pair of `pairs` in turn into `target`.
pub fn merge_labels(target: &mut Vec<(String, String)>, pairs: &Vec<(String, String)>)
    requires
        keys_unique(old(target)@),
    ensures
        keys_unique(final(target)@),
        label_map(final(target)@) == label_map(old(target)@ + pairs@),
{
    let ghost start = target@;
    let mut j: usize = 0;
    while j < pairs.len()
        invariant
            j <= pairs@.len(),
            keys_unique(target@),
            label_map(target@) == label_map(start + pairs@.subrange(0, j as int)),
        decreases pairs@.len() - j,
    {
        proof {
            assert(pairs@.subrange(0, j + 1) =~= pairs@.subrange(0, j as int).push(pairs@[j as int]));
            lemma_label_map_concat(start, pairs@.subrange(0, j as int), pairs@[j as int]);
        }
        set_label(target, &pairs[j].0, &pairs[j].1);
        j = j + 1;
    }
    proof {
        assert(pairs@.subrange(0, pairs@.len() as int) =~= pairs@);
    }
}

/// Flattens a declared sequence of label sets into one map, in order: where
/// a key is declared more than once, its last declaration wins.
pub fn resolve_labels(entries: &Vec<Vec<(String, String)>>) -> (r: Vec<(String, String)>)
    ensures
        keys_unique(r@),
        label_map(r@) == label_map(concat_entries(entries@)),
{
    let mut r: Vec<(String, String)> = Vec::new();
    let mut i: usize = 0;
    while i < entries.len()
        invariant
            i <= entries@.len(),
            keys_unique(r@),
            label_map(r@) == label_map(concat_entries(entries@.subrange(0, i as int))),
        decreases entries@.len() - i,
    {
        let ghost before = r@;
        merge_labels(&mut r, &entries[i]);
        proof {
            let prefix = concat_entries(entries@.subrange(0, i as int));
            lemma_label_map_append_congruent(before, prefix, entries@[i as int]@);
            assert(entries@.subrange(0, i + 1).drop_last() =~= entries@.subrange(0, i as int));
        }
        i = i + 1;
    }
    proof {
        assert(entries@.subrange(0, entries@.len() as int) =~= entries@);
    }
    r
}

/// What a JSON object of string values denotes, as a map; `None` for a text
/// that is no such object.
pub uninterp spec fn decoded_string_map(s: Seq<char>) -> Option<Map<Seq<char>, Seq<char>>>;

/// Relies on `serde_json::from_str` into a `BTreeMap<String, String>`: the
/// text decodes exactly when it is a JSON object of strings, and the map's
/// entries, one pair per key, denote the decoded object.
#[verifier::external_body]
pub(crate) fn decode_string_map(s: &String) -> (r: Option<Vec<(String, String)>>)
    ensures
        match r {
            Some(v) => decoded_string_map(s@) == Some(label_map(v@)),
            None => decoded_string_map(s@) is None,
        },
{
    serde_json::from_str::<std::collections::BTreeMap<String, String>>(s)
        .ok()
        .map(|m| m.into_iter().collect())
}


/// The JSON text that serde_json writes for a map of strings, keys in order.
pub uninterp spec fn encoded_string_map(m: Map<Seq<char>, Seq<char>>) -> Seq<char>;

/// Relies on `serde_json::to_string` of a `BTreeMap<&str, &str>`: it writes
/// the JSON object of the map, and cannot fail on string keys and values.
/// The pairs go into the map one for one, as their keys are unique.
#[verifier::external_body]
pub(crate) fn encode_string_map(pairs: &Vec<(String, String)>) -> (r: String)
    requires
        keys_unique(pairs@),
    ensures
        r@ == encoded_string_map(label_map(pairs@)),
{
    let m: std::collections::BTreeMap<&str, &str> = pairs.iter().map(|p| (p.0.as_str(), p.1.as_str())).collect();
    serde_json::to_string(&m).unwrap_or_default()
}

} // verus!
