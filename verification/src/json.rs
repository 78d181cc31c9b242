use vstd::prelude::*;

verus! {

/// A JSON value as the anonymizer reads and rewrites it.
pub enum Json {
    Null,
    Bool(bool),
    /// A number, kept as the text that writes it.
    Number(String),
    Str(String),
    Array(Vec<Json>),
    /// An object's members, in order.
    Object(Vec<Member>),
}

/// One `key: value` member of a JSON object.
pub struct Member {
    pub key: String,
    pub value: Json,
}

/// The mathematical model of a JSON value: strings are character sequences.
pub enum JsonV {
    Null,
    Bool(bool),
    Number(Seq<char>),
    Str(Seq<char>),
    Array(Seq<JsonV>),
    Object(Seq<(Seq<char>, JsonV)>),
}

pub open spec fn json_view(j: Json) -> JsonV
    decreases j,
{
    match j {
        Json::Null => JsonV::Null,
        Json::Bool(b) => JsonV::Bool(b),
        Json::Number(n) => JsonV::Number(n@),
        Json::Str(s) => JsonV::Str(s@),
        Json::Array(items) => {
            proof {
                assert(decreases_to!(items => items@)) by {
                    broadcast use vstd::std_specs::vec::axiom_vec_decreases_to_view;
                }
            }
            JsonV::Array(items_view(items@))
        },
        Json::Object(members) => {
            proof {
                assert(decreases_to!(members => members@)) by {
                    broadcast use vstd::std_specs::vec::axiom_vec_decreases_to_view;
                }
            }
            JsonV::Object(members_view(members@))
        },
    }
}

pub open spec fn items_view(s: Seq<Json>) -> Seq<JsonV>
    decreases s,
{
    if s.len() == 0 {
        Seq::empty()
    } else {
        proof {
            assert(decreases_to!(s => s.subrange(0, s.len() - 1)));
            assert(decreases_to!(s => s[s.len() - 1]));
        }
        items_view(s.subrange(0, s.len() - 1)).push(json_view(s[s.len() - 1]))
    }
}

pub open spec fn members_view(s: Seq<Member>) -> Seq<(Seq<char>, JsonV)>
    decreases s,
{
    if s.len() == 0 {
        Seq::empty()
    } else {
        proof {
            assert(decreases_to!(s => s.subrange(0, s.len() - 1)));
            assert(decreases_to!(s => s[s.len() - 1]));
        }
        members_view(s.subrange(0, s.len() - 1)).push(
            (s[s.len() - 1].key@, json_view(s[s.len() - 1].value)),
        )
    }
}

impl View for Json {
    type V = JsonV;

    open spec fn view(&self) -> JsonV {
        json_view(*self)
    }
}

impl View for Member {
    type V = (Seq<char>, JsonV);

    open spec fn view(&self) -> (Seq<char>, JsonV) {
        (self.key@, json_view(self.value))
    }
}

/// The model of a sequence of array items, element by element.
pub proof fn lemma_items_view(s: Seq<Json>)
    ensures
        items_view(s).len() == s.len(),
        forall|i: int| 0 <= i < s.len() ==> #[trigger] items_view(s)[i] == json_view(s[i]),
    decreases s.len(),
{
    if s.len() > 0 {
        lemma_items_view(s.subrange(0, s.len() - 1));
    }
}

/// The model of a sequence of object members, member by member.
pub proof fn lemma_members_view(s: Seq<Member>)
    ensures
        members_view(s).len() == s.len(),
        forall|i: int|
            0 <= i < s.len() ==> #[trigger] members_view(s)[i] == (s[i].key@, json_view(s[i].value)),
    decreases s.len(),
{
    if s.len() > 0 {
        lemma_members_view(s.subrange(0, s.len() - 1));
    }
}

/// No two members share a key.
pub open spec fn keys_unique(ms: Seq<(Seq<char>, JsonV)>) -> bool {
    forall|a: int, b: int| 0 <= a < b < ms.len() ==> ms[a].0 != ms[b].0
}

/// A well-formed document: every object in it names each key once, as a
/// parsed JSON object does.
pub open spec fn json_wf(j: JsonV) -> bool
    decreases j,
{
    match j {
        JsonV::Array(items) => items_wf(items),
        JsonV::Object(ms) => keys_unique(ms) && members_wf(ms),
        _ => true,
    }
}

/// Every item of `s` is well formed.
pub open spec fn items_wf(s: Seq<JsonV>) -> bool
    decreases s,
{
    if s.len() == 0 {
        true
    } else {
        proof {
            assert(decreases_to!(s => s.subrange(0, s.len() - 1)));
            assert(decreases_to!(s => s[s.len() - 1]));
        }
        items_wf(s.subrange(0, s.len() - 1)) && json_wf(s[s.len() - 1])
    }
}

/// The value of every member of `s` is well formed.
pub open spec fn members_wf(s: Seq<(Seq<char>, JsonV)>) -> bool
    decreases s,
{
    if s.len() == 0 {
        true
    } else {
        proof {
            assert(decreases_to!(s => s.subrange(0, s.len() - 1)));
            assert(decreases_to!(s => s[s.len() - 1]));
        }
        members_wf(s.subrange(0, s.len() - 1)) && json_wf(s[s.len() - 1].1)
    }
}

/// `members_wf` member by member.
pub proof fn lemma_members_wf(s: Seq<(Seq<char>, JsonV)>)
    ensures
        members_wf(s) <==> forall|i: int| 0 <= i < s.len() ==> #[trigger] json_wf(s[i].1),
    decreases s.len(),
{
    if s.len() > 0 {
        let init = s.subrange(0, s.len() - 1);
        lemma_members_wf(init);
        if forall|i: int| 0 <= i < s.len() ==> #[trigger] json_wf(s[i].1) {
            assert forall|i: int| 0 <= i < init.len() implies #[trigger] json_wf(init[i].1) by {
                assert(init[i] == s[i]);
            }
            assert(json_wf(s[s.len() - 1].1));
        }
        if members_wf(s) {
            assert forall|i: int| 0 <= i < s.len() implies #[trigger] json_wf(s[i].1) by {
                if i < s.len() - 1 {
                    assert(init[i] == s[i]);
                    assert(json_wf(init[i].1));
                }
            }
        }
    }
}

/// The position of the first member named `key`, if any.
pub open spec fn find_key(ms: Seq<(Seq<char>, JsonV)>, key: Seq<char>) -> Option<int>
    decreases ms.len(),
{
    if ms.len() == 0 {
        None
    } else if ms[0].0 == key {
        Some(0)
    } else {
        match find_key(ms.drop_first(), key) {
            Some(i) => Some(i + 1),
            None => None,
        }
    }
}

/// The value of the first member named `key`, if any.
pub open spec fn member_get(ms: Seq<(Seq<char>, JsonV)>, key: Seq<char>) -> Option<JsonV> {
    match find_key(ms, key) {
        Some(i) => Some(ms[i].1),
        None => None,
    }
}

/// Sets member `key` to `v`: the first member of that name is replaced in
/// place, and where there is none the member is added at the end.
pub open spec fn member_insert(ms: Seq<(Seq<char>, JsonV)>, key: Seq<char>, v: JsonV) -> Seq<
    (Seq<char>, JsonV),
> {
    match find_key(ms, key) {
        Some(i) => ms.update(i, (key, v)),
        None => ms.push((key, v)),
    }
}

/// Looks `key` up in `j`; only an object has members.
pub open spec fn json_get(j: JsonV, key: Seq<char>) -> Option<JsonV> {
    match j {
        JsonV::Object(ms) => member_get(ms, key),
        _ => None,
    }
}

/// Follows `keys` from `j`, one member lookup per key.
pub open spec fn get_path(j: JsonV, keys: Seq<Seq<char>>) -> Option<JsonV>
    decreases keys.len(),
{
    if keys.len() == 0 {
        Some(j)
    } else {
        match json_get(j, keys[0]) {
            Some(c) => get_path(c, keys.drop_first()),
            None => None,
        }
    }
}

/// `find_key` gives the first position whose key matches.
pub proof fn lemma_find_key(ms: Seq<(Seq<char>, JsonV)>, key: Seq<char>)
    ensures
        find_key(ms, key) matches Some(i) ==> {
            &&& 0 <= i < ms.len()
            &&& ms[i].0 == key
            &&& forall|j: int| 0 <= j < i ==> ms[j].0 != key
        },
        find_key(ms, key) is None ==> forall|j: int| 0 <= j < ms.len() ==> ms[j].0 != key,
    decreases ms.len(),
{
    if ms.len() > 0 {
        lemma_find_key(ms.drop_first(), key);
        if ms[0].0 != key {
            assert forall|j: int| 0 < j < ms.len() implies ms[j] == ms.drop_first()[j - 1] by {}
        }
    }
}

/// The first position whose key matches is what `find_key` gives.
pub proof fn lemma_find_key_at(ms: Seq<(Seq<char>, JsonV)>, key: Seq<char>, i: int)
    requires
        0 <= i < ms.len(),
        ms[i].0 == key,
        forall|j: int| 0 <= j < i ==> ms[j].0 != key,
    ensures
        find_key(ms, key) == Some(i),
{
    lemma_find_key(ms, key);
    if let Some(k) = find_key(ms, key) {
        assert(!(k < i));
        assert(!(i < k));
    }
}

/// Finds the first member named `key`.
pub fn find_member(ms: &Vec<Member>, key: &String) -> (pos: Option<usize>)
    ensures
        match pos {
            Some(i) => i < ms.len() && find_key(members_view(ms@), key@) == Some(i as int),
            None => find_key(members_view(ms@), key@) is None,
        },
{
    proof {
        lemma_members_view(ms@);
        lemma_find_key(members_view(ms@), key@);
    }
    let mut i: usize = 0;
    while i < ms.len()
        invariant
            0 <= i <= ms.len(),
            members_view(ms@).len() == ms.len(),
            forall|j: int| 0 <= j < ms.len() ==> #[trigger] members_view(ms@)[j] == (
                ms@[j].key@,
                json_view(ms@[j].value),
            ),
            forall|j: int| 0 <= j < i ==> members_view(ms@)[j].0 != key@,
        decreases ms.len() - i,
    {
        if ms[i].key == *key {
            proof {
                lemma_find_key_at(members_view(ms@), key@, i as int);
            }
            return Some(i);
        }
        i = i + 1;
    }
    None
}

impl Json {
    /// The value of member `key` when `self` is an object that has one.
    pub fn get(&self, key: &String) -> (res: Option<&Json>)
        ensures
            match res {
                Some(v) => json_get(self@, key@) == Some(json_view(*v)),
                None => json_get(self@, key@) is None,
            },
    {
        match self {
            Json::Object(ms) => {
                proof {
                    lemma_members_view(ms@);
                }
                match find_member(ms, key) {
                    Some(i) => Some(&ms[i].value),
                    None => None,
                }
            },
            _ => None,
        }
    }
}

} // verus!
