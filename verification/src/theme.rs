//! The runtime theme table: declarative per-component theme entries are
//! grouped into a dictionary from theme name to concatenated class text, and
//! a themed class is resolved by looking the name up and merging the result
//! with field classes and a caller override.

use vstd::prelude::*;

use crate::merge::tw_merge_slice;
use crate::merge::tw_merge_spec;
use crate::strutil::str_eq;
use crate::strutil::strs_views;

verus! {

/// One declarative theme entry: an optional theme name (`base` when absent)
/// and an optional class text (empty when absent).
pub struct ThemeEntry {
    pub name: Option<String>,
    pub class: Option<String>,
}

/// The dictionary key an entry falls under.
pub open spec fn entry_key(e: ThemeEntry) -> Seq<char> {
    match e.name {
        Some(n) => n@,
        None => "base"@,
    }
}

/// The class text an entry contributes.
pub open spec fn entry_class(e: ThemeEntry) -> Seq<char> {
    match e.class {
        Some(c) => c@,
        None => Seq::empty(),
    }
}

/// Class text appended to a bucket: a space between nonempty halves.
pub open spec fn append_class(acc: Seq<char>, v: Seq<char>) -> Seq<char> {
    if acc.len() == 0 {
        v
    } else {
        acc + seq![' '] + v
    }
}

/// Whether the dictionary holds the key.
pub open spec fn dict_contains(d: Seq<(Seq<char>, Seq<char>)>, key: Seq<char>) -> bool {
    exists|i: int| 0 <= i < d.len() && (#[trigger] d[i]).0 == key
}

/// One entry folded into the dictionary: appended to its key's bucket, or a
/// new bucket at the end.
pub open spec fn dict_insert(
    d: Seq<(Seq<char>, Seq<char>)>,
    key: Seq<char>,
    v: Seq<char>,
) -> Seq<(Seq<char>, Seq<char>)> {
    if dict_contains(d, key) {
        d.map_values(
            |p: (Seq<char>, Seq<char>)|
                if p.0 == key {
                    (p.0, append_class(p.1, v))
                } else {
                    p
                },
        )
    } else {
        d.push((key, v))
    }
}

/// The dictionary a list of entries builds, first appearance first.
pub open spec fn theme_dict(entries: Seq<ThemeEntry>) -> Seq<(Seq<char>, Seq<char>)>
    decreases entries.len(),
{
    if entries.len() == 0 {
        Seq::empty()
    } else {
        dict_insert(
            theme_dict(entries.drop_last()),
            entry_key(entries.last()),
            entry_class(entries.last()),
        )
    }
}

/// The class bucket of a key, empty when the key is absent.
pub open spec fn dict_lookup(d: Seq<(Seq<char>, Seq<char>)>, key: Seq<char>) -> Seq<char>
    decreases d.len(),
{
    if d.len() == 0 {
        Seq::empty()
    } else if d[0].0 == key {
        d[0].1
    } else {
        dict_lookup(d.drop_first(), key)
    }
}

/// The views of a vector of string pairs.
pub open spec fn pair_views(v: Seq<(String, String)>) -> Seq<(Seq<char>, Seq<char>)> {
    v.map_values(|p: (String, String)| (p.0@, p.1@))
}

fn find_key(out: &Vec<(String, String)>, key: &str) -> (r: Option<usize>)
    ensures
        match r {
            Some(j) => j < out@.len() && pair_views(out@)[j as int].0 == key@ && (forall|t: int|
                0 <= t < j ==> (#[trigger] pair_views(out@)[t]).0 != key@),
            None => !dict_contains(pair_views(out@), key@),
        },
{
    let mut j: usize = 0;
    while j < out.len()
        invariant
            j <= out@.len(),
            forall|t: int| 0 <= t < j ==> (#[trigger] pair_views(out@)[t]).0 != key@,
        decreases out@.len() - j,
    {
        if str_eq(out[j].0.as_str(), key) {
            proof {
                assert(pair_views(out@)[j as int].0 == key@);
            }
            return Some(j);
        }
        j += 1;
    }
    None
}

/// Groups theme entries into a dictionary from theme name to concatenated
/// class text: entries without a name fall under `base`; repeated names
/// concatenate with single spaces, in entry order; names keep the order of
/// their first appearance.
pub fn construct_theme_container(entries: &Vec<ThemeEntry>) -> (r: Vec<(String, String)>)
    ensures
        pair_views(r@) == theme_dict(entries@),
{
    let mut out: Vec<(String, String)> = Vec::new();
    let mut i: usize = 0;
    proof {
        assert(pair_views(out@) =~= theme_dict(entries@.take(0)));
    }
    while i < entries.len()
        invariant
            i <= entries@.len(),
            pair_views(out@) == theme_dict(entries@.take(i as int)),
            forall|t1: int, t2: int|
                0 <= t1 < t2 < out@.len() ==> (#[trigger] pair_views(out@)[t1]).0 != (
                #[trigger] pair_views(out@)[t2]).0,
        decreases entries@.len() - i,
    {
        let key: String = match &entries[i].name {
            Some(n) => n.clone(),
            None => String::from_str("base"),
        };
        let value: String = match &entries[i].class {
            Some(c) => c.clone(),
            None => String::new(),
        };
        let ghost keyv = key@;
        let ghost valv = value@;
        proof {
            assert(entries@.take(i as int + 1).drop_last() =~= entries@.take(i as int));
            assert(entries@.take(i as int + 1).last() == entries@[i as int]);
            assert(keyv == entry_key(entries@[i as int]));
            assert(valv == entry_class(entries@[i as int]));
        }
        match find_key(&out, key.as_str()) {
            Some(j) => {
                let ghost oldvec = out@;
                let ghost oldv = pair_views(out@);
                let (k0, c0) = out.remove(j);
                let merged: String = if c0.as_str().is_empty() {
                    value
                } else {
                    let mut m = c0;
                    m.append(" ");
                    proof {
                        reveal_strlit(" ");
                        assert(" "@ =~= seq![' ']);
                    }
                    m.append(value.as_str());
                    m
                };
                let ghost mergedv = merged@;
                proof {
                    assert(mergedv == append_class(oldv[j as int].1, valv));
                }
                out.insert(j, (k0, merged));
                proof {
                    assert(dict_contains(oldv, keyv));
                    let newv = pair_views(out@);
                    let want = dict_insert(oldv, keyv, valv);
                    assert(out@.len() == oldvec.len());
                    assert(newv =~= want) by {
                        assert forall|t: int| 0 <= t < newv.len() implies newv[t] == want[t] by {
                            assert(oldv[j as int].0 == keyv);
                            if t < j {
                                assert(out@[t] == oldvec[t]);
                                assert(oldv[t].0 != keyv);
                            } else if t == j {
                                assert(out@[j as int].0 == oldvec[j as int].0);
                                assert(out@[j as int].1@ == mergedv);
                            } else {
                                assert(out@[t] == oldvec[t]);
                                assert(oldv[t].0 != oldv[j as int].0);
                            }
                        }
                    }
                }
            },
            None => {
                let ghost oldv = pair_views(out@);
                out.push((key, value));
                proof {
                    assert(!dict_contains(oldv, keyv));
                    assert(pair_views(out@) =~= dict_insert(oldv, keyv, valv));
                }
            },
        }
        i += 1;
    }
    proof {
        assert(entries@.take(entries@.len() as int) =~= entries@);
    }
    out
}

/// Looks a theme name up in a dictionary: its class text, or empty when the
/// name is absent.
pub fn theme_class_lookup(dict: &Vec<(String, String)>, name: &str) -> (r: String)
    ensures
        r@ == dict_lookup(pair_views(dict@), name@),
{
    let mut j: usize = 0;
    proof {
        assert(pair_views(dict@).skip(0) =~= pair_views(dict@));
    }
    while j < dict.len()
        invariant
            j <= dict@.len(),
            dict_lookup(pair_views(dict@), name@) == dict_lookup(
                pair_views(dict@).skip(j as int),
                name@,
            ),
        decreases dict@.len() - j,
    {
        proof {
            assert(pair_views(dict@).skip(j as int)[0] == pair_views(dict@)[j as int]);
            assert(pair_views(dict@).skip(j as int).drop_first() =~= pair_views(dict@).skip(
                j as int + 1,
            ));
        }
        if str_eq(dict[j].0.as_str(), name) {
            return dict[j].1.clone();
        }
        j += 1;
    }
    String::new()
}

/// Resolves a themed class: the named theme's bucket (`base` when no theme
/// is named), then the field classes, then the caller override, merged with
/// the later class winning per conflict scope.
pub fn resolve_theme_class(
    dict: &Vec<(String, String)>,
    theme: Option<&str>,
    field_classes: &[&str],
    class: &str,
) -> (r: String)
    ensures
        r@ == tw_merge_spec(
            seq![
                dict_lookup(pair_views(dict@), match theme {
                    Some(t) => t@,
                    None => "base"@,
                }),
            ] + strs_views(field_classes@) + seq![class@],
            ""@,
            ":"@,
        ),
{
    let name: &str = match theme {
        Some(t) => t,
        None => "base",
    };
    let theme_class = theme_class_lookup(dict, name);
    let mut parts: Vec<&str> = Vec::new();
    parts.push(theme_class.as_str());
    let mut i: usize = 0;
    while i < field_classes.len()
        invariant
            i <= field_classes@.len(),
            parts@.len() == i + 1,
            strs_views(parts@) =~= seq![theme_class@] + strs_views(field_classes@).take(i as int),
        decreases field_classes@.len() - i,
    {
        let f: &str = *vstd::slice::slice_index_get(field_classes, i);
        let ghost oldp = parts@;
        parts.push(f);
        proof {
            assert(strs_views(parts@) =~= strs_views(oldp).push(f@));
            assert(strs_views(field_classes@).take(i as int + 1) =~= strs_views(
                field_classes@,
            ).take(i as int).push(strs_views(field_classes@)[i as int]));
            assert(f@ == strs_views(field_classes@)[i as int]);
            assert(strs_views(parts@) =~= seq![theme_class@] + strs_views(field_classes@).take(
                i as int + 1,
            ));
        }
        i += 1;
    }
    parts.push(class);
    proof {
        assert(strs_views(field_classes@).take(field_classes@.len() as int) =~= strs_views(
            field_classes@,
        ));
        assert(strs_views(parts@) =~= seq![theme_class@] + strs_views(field_classes@) + seq![
            class@,
        ]);
    }
    let r = tw_merge_slice(parts.as_slice());
    proof {
        assert(parts@.map_values(|s: &str| s@) =~= strs_views(parts@));
    }
    r
}

} // verus!
