//! Reading a JSON payload: an object from application name to metrics, as one
//! string or as an array of lines.

use vstd::prelude::*;
use crate::stash::{has_key, keys_distinct, lemma_lookup_at, lookup};

verus! {

/// The object of strings that `serde_json` reads from `data` (into a
/// `HashMap<String, String>`), or `None` where it rejects the input.
pub uninterp spec fn json_string_object(data: Seq<u8>) -> Option<Map<Seq<char>, Seq<char>>>;

/// The object of string arrays that `serde_json` reads from `data` (into a
/// `HashMap<String, Vec<String>>`), or `None` where it rejects the input.
pub uninterp spec fn json_string_list_object(data: Seq<u8>) -> Option<Map<Seq<char>, Seq<Seq<char>>>>;

/// Whether the pairs list exactly the entries of the map, each key once.
pub open spec fn pairs_of_map<V>(e: Seq<(Seq<char>, V)>, m: Map<Seq<char>, V>) -> bool {
    &&& keys_distinct(e)
    &&& forall|k: Seq<char>| #[trigger] has_key(e, k) <==> m.dom().contains(k)
    &&& forall|k: Seq<char>| m.dom().contains(k) ==> #[trigger] lookup(e, k) == Some(m[k])
}

/// The entries of a map of strings, in its iteration order.
pub open spec fn string_pairs(v: Seq<(String, String)>) -> Seq<(Seq<char>, Seq<char>)> {
    v.map_values(|p: (String, String)| (p.0@, p.1@))
}

/// The entries of a map of string lists, in its iteration order.
pub open spec fn string_list_pairs(v: Seq<(String, Vec<String>)>) -> Seq<(Seq<char>, Seq<Seq<char>>)> {
    v.map_values(|p: (String, Vec<String>)| (p.0@, p.1@.map_values(|s: String| s@)))
}

/// Calls `serde_json::from_slice::<HashMap<String, String>>` and hands out the
/// map's entries in its iteration order (which `HashMap` leaves open).
#[verifier::external_body]
fn serde_json_string_map(data: &[u8]) -> (r: Option<Vec<(String, String)>>)
    ensures
        r is Some <==> json_string_object(data@) is Some,
        r matches Some(v) ==> pairs_of_map(string_pairs(v@), json_string_object(data@)->0),
{
    match serde_json::from_slice::<std::collections::HashMap<String, String>>(data) {
        Ok(m) => Some(m.into_iter().collect()),
        Err(_) => None,
    }
}

/// Calls `serde_json::from_slice::<HashMap<String, Vec<String>>>` and hands
/// out the map's entries in its iteration order (which `HashMap` leaves open).
#[verifier::external_body]
fn serde_json_string_list_map(data: &[u8]) -> (r: Option<Vec<(String, Vec<String>)>>)
    ensures
        r is Some <==> json_string_list_object(data@) is Some,
        r matches Some(v) ==> pairs_of_map(string_list_pairs(v@), json_string_list_object(data@)->0),
{
    match serde_json::from_slice::<std::collections::HashMap<String, Vec<String>>>(data) {
        Ok(m) => Some(m.into_iter().collect()),
        Err(_) => None,
    }
}

/// The lines joined by newlines (`lines.join("\n")`).
pub open spec fn joined(lines: Seq<Seq<char>>) -> Seq<char>
    decreases lines.len(),
{
    if lines.len() == 0 {
        Seq::<char>::empty()
    } else if lines.len() == 1 {
        lines[0]
    } else {
        joined(lines.drop_last()) + "\n"@ + lines.last()
    }
}

/// The metrics text of an array of lines: the lines joined by newlines,
/// with a final newline.
pub open spec fn lines_text(lines: Seq<Seq<char>>) -> Seq<char> {
    joined(lines) + "\n"@
}

/// Joins the lines with newlines and ends the text with one.
pub fn join_lines(lines: &Vec<String>) -> (r: String)
    ensures
        r@ == lines_text(lines@.map_values(|s: String| s@)),
{
    let ghost l = lines@.map_values(|s: String| s@);
    let mut out = String::new();
    let n = lines.len();
    for i in 0..n
        invariant
            n == lines@.len(),
            l == lines@.map_values(|s: String| s@),
            out@ == joined(l.take(i as int)),
    {
        proof {
            assert(l.take(i as int + 1).drop_last() =~= l.take(i as int));
        }
        if i > 0 {
            out.append("\n");
        }
        out.append(lines[i].as_str());
        proof {
            if i == 0 {
                assert(out@ =~= joined(l.take(1)));
            } else {
                assert(out@ =~= joined(l.take(i as int + 1)));
            }
        }
    }
    proof {
        assert(l.take(n as int) =~= l);
    }
    out.append("\n");
    out
}

/// The application name and metrics text that a JSON payload carries, where
/// it carries one: an object of strings gives one of its entries; an input
/// that is no such object is read as an object of string arrays, whose entry
/// gives the lines joined and ended by a newline. An empty object, or an input
/// that is neither, carries nothing.
pub open spec fn json_metric_spec(data: Seq<u8>, r: Option<(Seq<char>, Seq<char>)>) -> bool {
    match json_string_object(data) {
        Some(m) => match r {
            Some((k, v)) => m.dom().contains(k) && m[k] == v,
            None => m.dom() =~= Set::<Seq<char>>::empty(),
        },
        None => match json_string_list_object(data) {
            Some(m) => match r {
                Some((k, v)) => m.dom().contains(k) && v == lines_text(m[k]),
                None => m.dom() =~= Set::<Seq<char>>::empty(),
            },
            None => r is None,
        },
    }
}

/// The metric that the parsed entries give: the first entry of an object of
/// strings; where the input was no such object, the first entry of an object
/// of string arrays, its lines joined and ended by a newline; nothing from an
/// empty object, or where neither parse succeeded.
pub open spec fn chosen_json_metric(
    strings: Option<Seq<(Seq<char>, Seq<char>)>>,
    lists: Option<Seq<(Seq<char>, Seq<Seq<char>>)>>,
) -> Option<(Seq<char>, Seq<char>)> {
    match strings {
        Some(v) => if v.len() == 0 {
            None
        } else {
            Some(v[0])
        },
        None => match lists {
            Some(w) => if w.len() == 0 {
                None
            } else {
                Some((w[0].0, lines_text(w[0].1)))
            },
            None => None,
        },
    }
}

/// Picks the metric out of the entries of the two parses of a JSON payload:
/// as an object of strings (`strings`) and, where that failed, as an object of
/// string arrays (`lists`).
pub fn json_metric_from_entries(
    strings: Option<Vec<(String, String)>>,
    lists: Option<Vec<(String, Vec<String>)>>,
) -> (r: Option<(String, String)>)
    ensures
        (match r {
            Some(p) => Some((p.0@, p.1@)),
            None => None,
        }) == chosen_json_metric(
            match strings {
                Some(v) => Some(string_pairs(v@)),
                None => None,
            },
            match lists {
                Some(w) => Some(string_list_pairs(w@)),
                None => None,
            },
        ),
{
    match strings {
        Some(pairs) => {
            if pairs.len() == 0 {
                None
            } else {
                let k = pairs[0].0.clone();
                let v = pairs[0].1.clone();
                Some((k, v))
            }
        },
        None => match lists {
            Some(pairs) => {
                if pairs.len() == 0 {
                    None
                } else {
                    let k = pairs[0].0.clone();
                    let v = join_lines(&pairs[0].1);
                    Some((k, v))
                }
            },
            None => None,
        },
    }
}

/// Reads the metrics that a JSON payload carries for one application.
pub fn decode_json_metric(data: &[u8]) -> (r: Option<(String, String)>)
    ensures
        json_metric_spec(
            data@,
            match r {
                Some(p) => Some((p.0@, p.1@)),
                None => None,
            },
        ),
{
    let strings = serde_json_string_map(data);
    let lists = match strings {
        Some(_) => None,
        None => serde_json_string_list_map(data),
    };
    let ghost gs = strings;
    let ghost gl = lists;
    proof {
        match gs {
            Some(pairs) => {
                let m = json_string_object(data@)->0;
                let e = string_pairs(pairs@);
                if pairs@.len() == 0 {
                    assert forall|k: Seq<char>| !m.dom().contains(k) by {
                        if m.dom().contains(k) {
                            assert(has_key(e, k));
                        }
                    }
                    assert(m.dom() =~= Set::<Seq<char>>::empty());
                } else {
                    assert(has_key(e, e[0].0));
                    lemma_lookup_at(e, 0);
                }
            },
            None => match gl {
                Some(pairs) => {
                    let m = json_string_list_object(data@)->0;
                    let e = string_list_pairs(pairs@);
                    if pairs@.len() == 0 {
                        assert forall|k: Seq<char>| !m.dom().contains(k) by {
                            if m.dom().contains(k) {
                                assert(has_key(e, k));
                            }
                        }
                        assert(m.dom() =~= Set::<Seq<char>>::empty());
                    } else {
                        assert(has_key(e, e[0].0));
                        lemma_lookup_at(e, 0);
                    }
                },
                None => {},
            },
        }
    }
    json_metric_from_entries(strings, lists)
}

/// The total length of the lines.
pub open spec fn total_len(lines: Seq<Seq<char>>) -> nat
    decreases lines.len(),
{
    if lines.len() == 0 {
        0
    } else {
        total_len(lines.drop_last()) + lines.last().len()
    }
}

/// Joining keeps every line: adding a line to non-empty lines adds a newline
/// and that line to the joined text.
pub proof fn lemma_joined_push(lines: Seq<Seq<char>>, x: Seq<char>)
    requires
        lines.len() > 0,
    ensures
        joined(lines.push(x)) == joined(lines) + "\n"@ + x,
{
    assert(lines.push(x).drop_last() =~= lines);
}

/// The text of a line array keeps every line: the joined lines with the
/// final newline are as long as all the lines plus one newline per line.
pub proof fn lemma_lines_text_keeps_every_line(lines: Seq<Seq<char>>)
    requires
        lines.len() > 0,
    ensures
        lines_text(lines).len() == total_len(lines) + lines.len(),
    decreases lines.len(),
{
    reveal_strlit("\n");
    if lines.len() == 1 {
        assert(joined(lines) == lines[0]);
        assert(lines.drop_last() =~= Seq::<Seq<char>>::empty());
        assert(total_len(lines.drop_last()) == 0);
        assert(joined(lines.drop_last()) == Seq::<char>::empty());
    } else {
        lemma_lines_text_keeps_every_line(lines.drop_last());
        assert(joined(lines) == joined(lines.drop_last()) + "\n"@ + lines.last());
    }
}

} // verus!
