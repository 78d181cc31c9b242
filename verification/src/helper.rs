use vstd::prelude::*;

use crate::json::{
    find_key, find_member, lemma_find_key, json_get, json_wf, json_view, lemma_members_view, member_insert, members_view, Json,
    JsonV, Member,
};
use crate::text::{lemma_split_nonempty, split_on, split_spec, strings_view};

verus! {

/// The text that replaces an anonymized property.
pub open spec fn anonymized_text() -> Seq<char> {
    seq!['A', 'n', 'o', 'n', 'y', 'm', 'i', 'z', 'e']
}

/// The value that replaces an anonymized property.
pub open spec fn anonymized_value() -> JsonV {
    JsonV::Str(anonymized_text())
}

/// The member that flags an event as sensitive.
pub open spec fn sensitive_key() -> Seq<char> {
    seq!['s', 'e', 'n', 's', 'i', 't', 'i', 'v', 'e']
}

/// The keys that a property path names: the path is split at each `.`, and
/// the first piece (the root marker, such as `$`) is dropped.
pub open spec fn path_keys(path: Seq<char>) -> Seq<Seq<char>> {
    split_spec(path, '.').drop_first()
}

/// Sets the property that `keys` lead to in `j` to `v`.
///
/// Every key but the last must name an existing member, each of them reached
/// through objects; the last key is set on the object reached so far, added
/// there when it is missing. `None` when there are no keys or the walk fails.
pub open spec fn set_path(j: JsonV, keys: Seq<Seq<char>>, v: JsonV) -> Option<JsonV>
    decreases keys.len(),
{
    if keys.len() == 0 {
        None
    } else {
        match j {
            JsonV::Object(ms) => if keys.len() == 1 {
                Some(JsonV::Object(member_insert(ms, keys[0], v)))
            } else {
                match find_key(ms, keys[0]) {
                    Some(i) => match set_path(ms[i].1, keys.drop_first(), v) {
                        Some(c) => Some(JsonV::Object(ms.update(i, (keys[0], c)))),
                        None => None,
                    },
                    None => None,
                }
            },
            _ => None,
        }
    }
}

/// What anonymizing `path` in `j` gives: the new document, or `None` when the
/// path cannot be followed (and the document stays as it was).
pub open spec fn anonymize_spec(j: JsonV, path: Seq<char>) -> Option<JsonV> {
    set_path(j, path_keys(path), anonymized_value())
}

/// Whether an event asks for anonymization: its `sensitive` member is `true`.
pub open spec fn is_sensitive_spec(j: JsonV) -> bool {
    json_get(j, sensitive_key()) == Some(JsonV::Bool(true))
}

fn set_at(j: Json, keys: &Vec<String>, idx: usize, v: Json) -> (res: (Json, bool))
    requires
        idx < keys.len(),
    ensures
        match set_path(j@, strings_view(keys@).subrange(idx as int, keys.len() as int), v@) {
            Some(n) => res.1 && res.0@ == n,
            None => !res.1 && res.0@ == j@,
        },
    decreases keys.len() - idx,
{
    let ghost ks = strings_view(keys@).subrange(idx as int, keys.len() as int);
    assert(ks[0] == keys@[idx as int]@);
    match j {
        Json::Object(mut ms) => {
            let ghost old_ms = ms@;
            proof {
                lemma_members_view(ms@);
            }
            let pos = find_member(&ms, &keys[idx]);
            if idx + 1 == keys.len() {
                let key = keys[idx].clone();
                match pos {
                    Some(i) => {
                        ms.set(i, Member { key, value: v });
                    },
                    None => {
                        ms.push(Member { key, value: v });
                    },
                }
                proof {
                    lemma_members_view(ms@);
                    assert(members_view(ms@) =~= member_insert(members_view(old_ms), ks[0], v@));
                }
                (Json::Object(ms), true)
            } else {
                match pos {
                    None => (Json::Object(ms), false),
                    Some(i) => {
                        proof {
                            lemma_find_key(members_view(old_ms), ks[0]);
                        }
                        let m = ms.remove(i);
                        let ghost child = json_view(m.value);
                        assert(child == members_view(old_ms)[i as int].1);
                        let (c, ok) = set_at(m.value, keys, idx + 1, v);
                        assert(strings_view(keys@).subrange(idx + 1, keys.len() as int)
                            =~= ks.drop_first());
                        ms.insert(i, Member { key: m.key, value: c });
                        proof {
                            lemma_members_view(ms@);
                            if ok {
                                assert(members_view(ms@) =~= members_view(old_ms).update(
                                    i as int,
                                    (ks[0], json_view(c)),
                                ));
                            } else {
                                assert(members_view(ms@) =~= members_view(old_ms));
                            }
                        }
                        (Json::Object(ms), ok)
                    },
                }
            }
        },
        other => (other, false),
    }
}

/// Replaces the property that `path` names by the string `Anonymize`.
///
/// The path's first piece is a root marker; each further piece, separated by
/// `.`, names a member one level deeper. Returns whether the property was set.
pub fn anonymize_property(json: &mut Json, path: &str) -> (changed: bool)
    ensures
        match anonymize_spec(old(json)@, path@) {
            Some(n) => changed && final(json)@ == n,
            None => !changed && final(json)@ == old(json)@,
        },
        json_wf(old(json)@) ==> json_wf(final(json)@),
{
    proof {
        if json_wf(old(json)@) {
            crate::laws::lemma_set_path_wf(old(json)@, path_keys(path@), anonymized_value());
        }
    }
    let parts = split_on(path, '.');
    if parts.len() <= 1 {
        proof {
            lemma_split_nonempty(path@, '.');
            assert(path_keys(path@) =~= Seq::<Seq<char>>::empty());
        }
        return false;
    }
    let mut taken = Json::Null;
    std::mem::swap(&mut taken, json);
    let text = String::from_str("Anonymize");
    proof {
        reveal_strlit("Anonymize");
        assert(text@ =~= anonymized_text());
        assert(strings_view(parts@).subrange(1, parts.len() as int) =~= path_keys(path@));
    }
    let (res, ok) = set_at(taken, &parts, 1, Json::Str(text));
    *json = res;
    ok
}

/// Checks the property `sensitive` to see whether anonymization is required.
pub fn is_event_sensitive(json: &Json) -> (sensitive: bool)
    ensures
        sensitive == is_sensitive_spec(json@),
{
    let key = String::from_str("sensitive");
    proof {
        reveal_strlit("sensitive");
        assert(key@ =~= sensitive_key());
    }
    match json.get(&key) {
        Some(Json::Bool(b)) => *b,
        _ => false,
    }
}

} // verus!
