use vstd::prelude::*;
use vstd::utf8::{decode_utf8, encode_utf8, encode_utf8_decode_utf8, encode_utf8_valid_utf8, valid_utf8};

use crate::anonymize::{apply_paths, paths_key, paths_spec, process_event, read_spec, string_items};
use crate::builder::{default_publish_folder, initial_context};
use crate::helper::{anonymize_spec, anonymized_value, is_sensitive_spec, path_keys, set_path};
use crate::naming::{file_name_for, path_joined, path_with_file_name};
use crate::pipeline::{handle_spec, ActionV, ContextV, Stage};
use crate::ingress::{is_white_space, lemma_encode_len, lemma_trim_end_take, lemma_trim_start_skip, trim_spec};
use crate::text::{lemma_split_nonempty, split_spec};
use crate::json::{
    find_key, get_path, json_get, json_wf, keys_unique, lemma_find_key, lemma_members_wf,
    lemma_find_key_at, member_get, member_insert, JsonV,
};

verus! {

/// Positions of a member sequence keep their keys under `update` with the
/// same key, so every lookup finds the same position.
proof fn lemma_find_key_update(
    ms: Seq<(Seq<char>, JsonV)>,
    i: int,
    x: JsonV,
    k: Seq<char>,
)
    requires
        0 <= i < ms.len(),
    ensures
        find_key(ms.update(i, (ms[i].0, x)), k) == find_key(ms, k),
{
    let ms2 = ms.update(i, (ms[i].0, x));
    lemma_find_key(ms, k);
    lemma_find_key(ms2, k);
    assert(forall|j: int| 0 <= j < ms.len() ==> ms2[j].0 == #[trigger] ms[j].0);
    match find_key(ms, k) {
        Some(p) => {
            lemma_find_key_at(ms2, k, p);
        },
        None => {
            if let Some(p) = find_key(ms2, k) {
                assert(ms[p].0 == k);
            }
        },
    }
}

/// Adding a member at the end leaves earlier lookups alone, and makes a
/// lookup of the new key that found nothing find the new member.
proof fn lemma_find_key_push(
    ms: Seq<(Seq<char>, JsonV)>,
    key: Seq<char>,
    x: JsonV,
    k: Seq<char>,
)
    ensures
        find_key(ms.push((key, x)), k) == (match find_key(ms, k) {
            Some(p) => Some(p),
            None => if k == key {
                Some(ms.len() as int)
            } else {
                None
            },
        }),
{
    let ms2 = ms.push((key, x));
    lemma_find_key(ms, k);
    lemma_find_key(ms2, k);
    assert(forall|j: int| 0 <= j < ms.len() ==> ms2[j] == #[trigger] ms[j]);
    match find_key(ms, k) {
        Some(p) => {
            lemma_find_key_at(ms2, k, p);
        },
        None => {
            if k == key {
                lemma_find_key_at(ms2, k, ms.len() as int);
            } else {
                if let Some(p) = find_key(ms2, k) {
                    assert(p < ms.len());
                }
            }
        },
    }
}

/// Setting member `k` makes a lookup of `k` give the value set.
proof fn lemma_member_insert_get(ms: Seq<(Seq<char>, JsonV)>, k: Seq<char>, v: JsonV)
    ensures
        member_get(member_insert(ms, k, v), k) == Some(v),
{
    lemma_find_key(ms, k);
    match find_key(ms, k) {
        Some(i) => {
            lemma_find_key_update(ms, i, v, k);
        },
        None => {
            lemma_find_key_push(ms, k, v, k);
        },
    }
}

/// Setting member `k` leaves every other member as it was.
proof fn lemma_member_insert_other(
    ms: Seq<(Seq<char>, JsonV)>,
    k: Seq<char>,
    v: JsonV,
    other: Seq<char>,
)
    requires
        other != k,
    ensures
        member_get(member_insert(ms, k, v), other) == member_get(ms, other),
{
    lemma_find_key(ms, k);
    lemma_find_key(ms, other);
    match find_key(ms, k) {
        Some(i) => {
            lemma_find_key_update(ms, i, v, other);
        },
        None => {
            lemma_find_key_push(ms, k, v, other);
        },
    }
}

/// Writing a well-formed value into a well-formed document keeps it well
/// formed: no object comes to name a key twice.
pub proof fn lemma_set_path_wf(j: JsonV, keys: Seq<Seq<char>>, v: JsonV)
    requires
        json_wf(j),
        json_wf(v),
    ensures
        set_path(j, keys, v) matches Some(n) ==> json_wf(n),
    decreases keys.len(),
{
    if let Some(n) = set_path(j, keys, v) {
        if let JsonV::Object(ms) = j {
            lemma_find_key(ms, keys[0]);
            lemma_members_wf(ms);
            if keys.len() == 1 {
                let ms2 = member_insert(ms, keys[0], v);
                match find_key(ms, keys[0]) {
                    Some(i) => {
                        assert forall|p: int| 0 <= p < ms2.len() implies #[trigger] json_wf(
                            ms2[p].1,
                        ) by {
                            if p != i {
                                assert(ms2[p] == ms[p]);
                            }
                        }
                        lemma_members_wf(ms2);
                        assert(keys_unique(ms2)) by {
                            assert forall|a: int, b: int| 0 <= a < b < ms2.len() implies ms2[a].0
                                != ms2[b].0 by {
                                assert(ms2[a].0 == ms[a].0);
                                assert(ms2[b].0 == ms[b].0);
                            }
                        }
                    },
                    None => {
                        assert forall|p: int| 0 <= p < ms2.len() implies #[trigger] json_wf(
                            ms2[p].1,
                        ) by {
                            if p < ms.len() {
                                assert(ms2[p] == ms[p]);
                            }
                        }
                        lemma_members_wf(ms2);
                        assert(keys_unique(ms2)) by {
                            assert forall|a: int, b: int| 0 <= a < b < ms2.len() implies ms2[a].0
                                != ms2[b].0 by {
                                if b < ms.len() {
                                } else {
                                    assert(ms2[a].0 == ms[a].0);
                                }
                            }
                        }
                    },
                }
            } else {
                let i = find_key(ms, keys[0]).unwrap();
                assert(json_wf(ms[i].1));
                lemma_set_path_wf(ms[i].1, keys.drop_first(), v);
                let c = set_path(ms[i].1, keys.drop_first(), v).unwrap();
                let ms2 = ms.update(i, (keys[0], c));
                assert forall|p: int| 0 <= p < ms2.len() implies #[trigger] json_wf(ms2[p].1) by {
                    if p != i {
                        assert(ms2[p] == ms[p]);
                    }
                }
                lemma_members_wf(ms2);
                assert(keys_unique(ms2)) by {
                    assert forall|a: int, b: int| 0 <= a < b < ms2.len() implies ms2[a].0
                        != ms2[b].0 by {
                        assert(ms2[a].0 == ms[a].0);
                        assert(ms2[b].0 == ms[b].0);
                    }
                }
            }
        }
    }
}

/// Anonymizing paths one after the other keeps a document well formed.
pub proof fn lemma_apply_paths_wf(j: JsonV, paths: Seq<Seq<char>>)
    requires
        json_wf(j),
    ensures
        json_wf(apply_paths(j, paths).0),
    decreases paths.len(),
{
    if paths.len() > 0 {
        lemma_apply_paths_wf(j, paths.drop_last());
        let j1 = apply_paths(j, paths.drop_last()).0;
        lemma_set_path_wf(j1, path_keys(paths.last()), anonymized_value());
    }
}

/// Processing an event keeps it well formed.
pub proof fn lemma_process_event_wf(j: JsonV)
    requires
        json_wf(j),
    ensures
        json_wf(process_event(j).0),
{
    if is_sensitive_spec(j) {
        lemma_apply_paths_wf(j, paths_spec(j));
    }
}

/// Writing a value at a path and then reading that path gives the value back.
pub proof fn lemma_set_path_reads_back(j: JsonV, keys: Seq<Seq<char>>, v: JsonV)
    ensures
        set_path(j, keys, v) matches Some(n) ==> get_path(n, keys) == Some(v),
    decreases keys.len(),
{
    if let Some(n) = set_path(j, keys, v) {
        if let JsonV::Object(ms) = j {
            if keys.len() == 1 {
                lemma_member_insert_get(ms, keys[0], v);
                assert(get_path(v, keys.drop_first()) == Some(v));
            } else {
                let i = find_key(ms, keys[0]).unwrap();
                lemma_find_key(ms, keys[0]);
                let c = set_path(ms[i].1, keys.drop_first(), v).unwrap();
                lemma_set_path_reads_back(ms[i].1, keys.drop_first(), v);
                lemma_find_key_update(ms, i, c, keys[0]);
            }
        }
    }
}

/// A write at a path succeeds exactly when there is at least one key and the
/// keys but the last lead to an object.
pub proof fn lemma_set_path_succeeds(j: JsonV, keys: Seq<Seq<char>>, v: JsonV)
    ensures
        set_path(j, keys, v) is Some <==> (keys.len() >= 1 && get_path(j, keys.drop_last()) matches Some(JsonV::Object(_))),
    decreases keys.len(),
{
    if keys.len() == 1 {
        assert(keys.drop_last() =~= Seq::<Seq<char>>::empty());
    } else if keys.len() > 1 {
        let rest = keys.drop_first();
        assert(keys.drop_last().drop_first() =~= rest.drop_last());
        assert(keys.drop_last()[0] == keys[0]);
        lemma_set_path_succeeds_step(j, keys, v);
    }
}

proof fn lemma_set_path_succeeds_step(j: JsonV, keys: Seq<Seq<char>>, v: JsonV)
    requires
        keys.len() > 1,
        keys.drop_last().drop_first() == keys.drop_first().drop_last(),
        keys.drop_last()[0] == keys[0],
    ensures
        set_path(j, keys, v) is Some <==> get_path(j, keys.drop_last()) matches Some(JsonV::Object(_)),
    decreases keys.len(), 0nat,
{
    match j {
        JsonV::Object(ms) => {
            lemma_find_key(ms, keys[0]);
            if let Some(i) = find_key(ms, keys[0]) {
                lemma_set_path_succeeds(ms[i].1, keys.drop_first(), v);
            }
        },
        _ => {},
    }
}

/// Writing the same value at the same path twice gives what writing it once
/// gives.
pub proof fn lemma_set_path_idempotent(j: JsonV, keys: Seq<Seq<char>>, v: JsonV)
    ensures
        set_path(j, keys, v) matches Some(n) ==> set_path(n, keys, v) == Some(n),
    decreases keys.len(),
{
    if let Some(n) = set_path(j, keys, v) {
        if let JsonV::Object(ms) = j {
            lemma_find_key(ms, keys[0]);
            if keys.len() == 1 {
                let ms1 = member_insert(ms, keys[0], v);
                lemma_member_insert_get(ms, keys[0], v);
                lemma_find_key(ms1, keys[0]);
                let p = find_key(ms1, keys[0]).unwrap();
                assert(ms1.update(p, (keys[0], v)) =~= ms1);
            } else {
                let i = find_key(ms, keys[0]).unwrap();
                let c = set_path(ms[i].1, keys.drop_first(), v).unwrap();
                let ms1 = ms.update(i, (keys[0], c));
                lemma_set_path_idempotent(ms[i].1, keys.drop_first(), v);
                lemma_find_key_update(ms, i, c, keys[0]);
                assert(ms1.update(i, (keys[0], c)) =~= ms1);
            }
        }
    }
}

/// A write leaves every top-level member other than the first key's alone.
pub proof fn lemma_set_path_frame(j: JsonV, keys: Seq<Seq<char>>, v: JsonV, other: Seq<char>)
    requires
        keys.len() >= 1,
        other != keys[0],
    ensures
        set_path(j, keys, v) matches Some(n) ==> json_get(n, other) == json_get(j, other),
{
    if let Some(n) = set_path(j, keys, v) {
        if let JsonV::Object(ms) = j {
            lemma_find_key(ms, keys[0]);
            lemma_find_key(ms, other);
            if keys.len() == 1 {
                lemma_member_insert_other(ms, keys[0], v, other);
            } else {
                let i = find_key(ms, keys[0]).unwrap();
                let c = set_path(ms[i].1, keys.drop_first(), v).unwrap();
                lemma_find_key_update(ms, i, c, other);
                let ms1 = ms.update(i, (keys[0], c));
                if let Some(p) = find_key(ms, other) {
                    assert(p != i);
                    assert(ms1[p] == ms[p]);
                }
            }
        }
    }
}

/// After anonymizing a path, the property it names reads `Anonymize`.
pub proof fn law_anonymized_property_reads_anonymize(j: JsonV, path: Seq<char>)
    ensures
        anonymize_spec(j, path) matches Some(n) ==> get_path(n, path_keys(path)) == Some(
            anonymized_value(),
        ),
{
    lemma_set_path_reads_back(j, path_keys(path), anonymized_value());
}

/// Anonymizing a path succeeds exactly when the path names at least one key
/// and its keys but the last lead to an object; otherwise the document is
/// left as it was.
pub proof fn law_anonymize_succeeds_iff_parent_is_object(j: JsonV, path: Seq<char>)
    ensures
        anonymize_spec(j, path) is Some <==> (path_keys(path).len() >= 1 && get_path(
            j,
            path_keys(path).drop_last(),
        ) matches Some(JsonV::Object(_))),
{
    lemma_set_path_succeeds(j, path_keys(path), anonymized_value());
}

/// Anonymizing a path a second time changes nothing more.
pub proof fn law_anonymize_idempotent(j: JsonV, path: Seq<char>)
    ensures
        anonymize_spec(j, path) matches Some(n) ==> anonymize_spec(n, path) == Some(n),
{
    lemma_set_path_idempotent(j, path_keys(path), anonymized_value());
}

/// Anonymizing a path leaves the other top-level properties as they were.
pub proof fn law_anonymize_keeps_other_members(j: JsonV, path: Seq<char>, other: Seq<char>)
    requires
        path_keys(path).len() >= 1,
        other != path_keys(path)[0],
    ensures
        anonymize_spec(j, path) matches Some(n) ==> json_get(n, other) == json_get(j, other),
{
    lemma_set_path_frame(j, path_keys(path), anonymized_value(), other);
}

/// The payload that announces a file decodes back to the file's path.
pub proof fn law_message_payload_round_trip(path: Seq<char>)
    ensures
        valid_utf8(encode_utf8(path)),
        decode_utf8(encode_utf8(path)) == path,
{
    encode_utf8_valid_utf8(path);
    encode_utf8_decode_utf8(path);
}

/// An event that is not sensitive is written back as it was, with nothing
/// anonymized.
pub proof fn law_insensitive_event_unchanged(j: JsonV)
    requires
        !is_sensitive_spec(j),
    ensures
        process_event(j) == (j, Seq::<Seq<char>>::empty()),
{
}

/// A file whose lines all parse as events that are not sensitive is written
/// back line for line, unchanged.
pub proof fn law_insensitive_file_unchanged(lines: Seq<Option<JsonV>>)
    requires
        forall|i: int|
            0 <= i < lines.len() ==> (#[trigger] lines[i] matches Some(j) && !is_sensitive_spec(j)),
    ensures
        read_spec(lines).len() == lines.len(),
        forall|i: int|
            0 <= i < lines.len() ==> #[trigger] read_spec(lines)[i] == (
                lines[i]->0,
                Seq::<Seq<char>>::empty(),
            ),
    decreases lines.len(),
{
    if lines.len() > 0 {
        let init = lines.drop_last();
        assert forall|i: int|
            0 <= i < init.len() implies (#[trigger] init[i] matches Some(j) && !is_sensitive_spec(
            j,
        )) by {
            assert(init[i] == lines[i]);
        }
        law_insensitive_file_unchanged(init);
        assert(lines[lines.len() - 1] matches Some(_));
    }
}

/// A run of the default pipeline on the file at `path`: the file is opened;
/// when opening succeeded the anonymize stage runs and `<uuid>.json` is
/// written beside it (at `out`), and the publish stage moves exactly that
/// file to `./publish/<uuid>.json`; when opening failed nothing is
/// anonymized. `out`, and the fact that naming it again keeps it, are what
/// `PipelineRun::name_output` ensures when the path ends in a plain file
/// name.
pub proof fn law_default_run(path: Seq<char>, opened: bool, out: Seq<char>)
    requires
        out == path_with_file_name(path, file_name_for(0)),
        path_with_file_name(out, file_name_for(0)) == out,
    ensures
        ({
            let name = file_name_for(0);
            let c0 = initial_context(path);
            let (c1, a1) = handle_spec(Stage::OpenFile, c0);
            let c1o = ContextV { buffer_open: c1.buffer_open || opened, ..c1 };
            let (c2, a2) = handle_spec(Stage::Anonymize, c1o);
            let c2r = if opened {
                ContextV { file_path: out, ..c2 }
            } else {
                c2
            };
            let (c3, a3) = handle_spec(Stage::Publisher, c2r);
            &&& a1 == ActionV::Open(path)
            &&& opened ==> a2 == ActionV::Anonymize
            &&& !opened ==> a2 == ActionV::Skip
            &&& opened ==> a3 == ActionV::Publish(out, path_joined(default_publish_folder(), name))
            &&& !opened ==> a3 == ActionV::Publish(out, path_joined(default_publish_folder(), name))
            &&& c3.file_path == out
            &&& c3.publish_folder == path_joined(default_publish_folder(), name)
            &&& path_joined(default_publish_folder(), name) == default_publish_folder() + name
        }),
{
    crate::naming::lemma_file_name_for_plain(0);
    let name = file_name_for(0);
    assert(name.len() > 0);
    assert(name[0] != '/');
}

/// Once the anonymize stage has named its output, the publish stage moves
/// exactly that file.
pub proof fn law_publish_moves_written_file(c: ContextV)
    requires
        path_with_file_name(c.file_path, file_name_for(c.uuid)) == c.file_path,
    ensures
        handle_spec(Stage::Publisher, c).1 == ActionV::Publish(
            c.file_path,
            path_joined(c.publish_folder, file_name_for(c.uuid)),
        ),
{
}

/// The pieces joined back together, with `sep` between neighbours.
pub open spec fn join_on(pieces: Seq<Seq<char>>, sep: char) -> Seq<char>
    decreases pieces.len(),
{
    if pieces.len() == 0 {
        Seq::empty()
    } else if pieces.len() == 1 {
        pieces[0]
    } else {
        join_on(pieces.drop_last(), sep) + seq![sep] + pieces.last()
    }
}

/// Splitting cuts a text at every separator and nowhere else: no piece holds
/// the separator, and joining the pieces with it gives the text back.
pub proof fn law_split_pieces_rejoin(s: Seq<char>, sep: char)
    ensures
        join_on(split_spec(s, sep), sep) == s,
        forall|i: int|
            0 <= i < split_spec(s, sep).len() ==> !(#[trigger] split_spec(s, sep)[i]).contains(sep),
    decreases s.len(),
{
    lemma_split_nonempty(s, sep);
    if s.len() == 0 {
        assert(split_spec(s, sep)[0] =~= Seq::<char>::empty());
    } else {
        let init = s.drop_last();
        let c = s.last();
        let p = split_spec(init, sep);
        law_split_pieces_rejoin(init, sep);
        lemma_split_nonempty(init, sep);
        let q = split_spec(s, sep);
        if c == sep {
            assert(q == p.push(Seq::<char>::empty()));
            assert(q.drop_last() =~= p);
            assert(join_on(q, sep) =~= s);
            assert forall|i: int| 0 <= i < q.len() implies !(#[trigger] q[i]).contains(sep) by {
                if i < p.len() {
                    assert(q[i] == p[i]);
                }
            }
        } else {
            let last = p.last().push(c);
            assert(q == p.update(p.len() - 1, last));
            if p.len() == 1 {
                assert(join_on(q, sep) =~= s);
            } else {
                assert(q.drop_last() =~= p.drop_last());
                let jp = join_on(p.drop_last(), sep);
                assert(join_on(p, sep) == jp + seq![sep] + p.last());
                assert(join_on(q, sep) == jp + seq![sep] + last);
                assert(s =~= init.push(c));
                assert(jp + seq![sep] + last =~= (jp + seq![sep] + p.last()).push(c));
            }
            assert forall|i: int| 0 <= i < q.len() implies !(#[trigger] q[i]).contains(sep) by {
                if i < p.len() - 1 {
                    assert(q[i] == p[i]);
                } else {
                    assert(!p[p.len() - 1].contains(sep));
                    if q[i].contains(sep) {
                        let k = choose|k: int| 0 <= k < q[i].len() && q[i][k] == sep;
                        if k < p.last().len() {
                            assert(p.last()[k] == sep);
                        }
                    }
                }
            }
        }
    }
}

/// A successful anonymization of `path` replaces the property that every
/// `.`-separated piece of the path after the first names: following all of
/// those pieces as keys in the result reads `"Anonymize"`.
pub proof fn law_anonymize_reaches_every_key(j: JsonV, path: Seq<char>)
    ensures
        anonymize_spec(j, path) matches Some(n) ==> get_path(n, split_spec(path, '.').drop_first())
            == Some(JsonV::Str(seq!['A', 'n', 'o', 'n', 'y', 'm', 'i', 'z', 'e'])),
        anonymize_spec(j, path) is Some <==> (split_spec(path, '.').len() >= 2 && get_path(
            j,
            split_spec(path, '.').drop_first().drop_last(),
        ) matches Some(JsonV::Object(_))),
{
    lemma_split_nonempty(path, '.');
    assert(path_keys(path) == split_spec(path, '.').drop_first());
    lemma_set_path_reads_back(j, path_keys(path), anonymized_value());
    lemma_set_path_succeeds(j, path_keys(path), anonymized_value());
}

/// The text of a string item, and nothing for any other item.
pub open spec fn string_text(v: JsonV) -> Option<Seq<char>> {
    match v {
        JsonV::Str(s) => Some(s),
        _ => None,
    }
}

/// The string items of an array are every string among its items, in order,
/// and nothing else.
pub proof fn law_string_items_are_all_strings(items: Seq<JsonV>)
    ensures
        string_items(items) == items.filter_map(|v: JsonV| string_text(v)),
    decreases items.len(),
{
    if items.len() > 0 {
        law_string_items_are_all_strings(items.drop_last());
        let f = |v: JsonV| string_text(v);
        match items.last() {
            JsonV::Str(x) => {
                assert(string_items(items) =~= items.drop_last().filter_map(f) + seq![x]);
            },
            _ => {},
        }
    }
}

/// The paths that an event lists are every string item of its `paths`
/// array, in order; an event without such an array lists none.
pub proof fn law_event_paths(j: JsonV)
    ensures
        json_get(j, seq!['p', 'a', 't', 'h', 's']) matches Some(JsonV::Array(items)) ==> paths_spec(j)
            == items.filter_map(|v: JsonV| string_text(v)),
        !(json_get(j, seq!['p', 'a', 't', 'h', 's']) matches Some(JsonV::Array(_))) ==> paths_spec(
            j,
        ) == Seq::<Seq<char>>::empty(),
{
    assert(paths_key() == seq!['p', 'a', 't', 'h', 's']);
    if let Some(JsonV::Array(items)) = json_get(j, seq!['p', 'a', 't', 'h', 's']) {
        law_string_items_are_all_strings(items);
    }
}

/// A file's written events are, in order, each of its parsed lines processed
/// on its own, wherever it stands in the file; unparsed lines give nothing.
pub proof fn law_read_processes_every_line(lines: Seq<Option<JsonV>>)
    ensures
        read_spec(lines) == lines.filter_map(
            |o: Option<JsonV>|
                match o {
                    Some(j) => Some(process_event(j)),
                    None => None,
                },
        ),
    decreases lines.len(),
{
    if lines.len() > 0 {
        law_read_processes_every_line(lines.drop_last());
        let f = |o: Option<JsonV>|
            match o {
                Some(j) => Some(process_event(j)),
                None => None,
            };
        match lines.last() {
            Some(j) => {
                assert(read_spec(lines) =~= lines.drop_last().filter_map(f) + seq![process_event(j)]);
            },
            None => {},
        }
    }
}

/// An event is sensitive exactly when it is an object whose first member
/// named `sensitive` holds the boolean `true`, whatever its other members;
/// a sensitive event has each path it lists anonymized in turn, and any
/// other event passes unchanged.
pub proof fn law_sensitive_iff_flag_true(j: JsonV)
    ensures
        is_sensitive_spec(j) <==> (j matches JsonV::Object(ms) && exists|i: int|
            0 <= i < ms.len() && ms[i] == (
                seq!['s', 'e', 'n', 's', 'i', 't', 'i', 'v', 'e'],
                JsonV::Bool(true),
            ) && forall|k: int| 0 <= k < i ==> ms[k].0 != seq!['s', 'e', 'n', 's', 'i', 't', 'i', 'v', 'e']),
        is_sensitive_spec(j) ==> process_event(j) == apply_paths(j, paths_spec(j)),
        !is_sensitive_spec(j) ==> process_event(j) == (j, Seq::<Seq<char>>::empty()),
{
    let key = seq!['s', 'e', 'n', 's', 'i', 't', 'i', 'v', 'e'];
    assert(crate::helper::sensitive_key() == key);
    if let JsonV::Object(ms) = j {
        lemma_find_key(ms, key);
        if exists|i: int|
            0 <= i < ms.len() && ms[i] == (key, JsonV::Bool(true)) && forall|k: int|
                0 <= k < i ==> ms[k].0 != key {
            let i = choose|i: int|
                0 <= i < ms.len() && ms[i] == (key, JsonV::Bool(true)) && forall|k: int|
                    0 <= k < i ==> ms[k].0 != key;
            lemma_find_key_at(ms, key, i);
        }
        if is_sensitive_spec(j) {
            let i = find_key(ms, key).unwrap();
            assert(ms[i] == (key, JsonV::Bool(true)));
        }
    }
}

/// No printable ASCII character (a letter, a digit or a punctuation mark)
/// is white space, while space, tab, line feed and carriage return are.
pub proof fn law_printable_ascii_is_not_white_space(c: char)
    ensures
        0x21 <= (c as u32) <= 0x7E ==> !is_white_space(c),
        is_white_space(' '),
        is_white_space('\t'),
        is_white_space('\n'),
        is_white_space('\r'),
{
}

/// A line that holds one printable ASCII character, with any white space
/// before and after it (a typed letter and its newline, say), trims to that
/// character alone: one byte, so it asks for a scan.
pub proof fn law_one_character_line_trims_to_it(before: Seq<char>, c: char, after: Seq<char>)
    requires
        0x21 <= (c as u32) <= 0x7E,
        forall|i: int| 0 <= i < before.len() ==> is_white_space(#[trigger] before[i]),
        forall|i: int| 0 <= i < after.len() ==> is_white_space(#[trigger] after[i]),
    ensures
        trim_spec(before + seq![c] + after) == seq![c],
        encode_utf8(trim_spec(before + seq![c] + after)).len() == 1,
{
    let s = before + seq![c] + after;
    let b = before.len() as int;
    assert forall|k: int| 0 <= k < b implies is_white_space(#[trigger] s[k]) by {
        assert(s[k] == before[k]);
    }
    lemma_trim_start_skip(s, b);
    let r = s.skip(b);
    assert(r =~= seq![c] + after);
    assert(!is_white_space(r[0]));
    assert(crate::ingress::trim_start_spec(r) == r);
    assert forall|k: int| 1 <= k < r.len() implies is_white_space(#[trigger] r[k]) by {
        assert(r[k] == after[k - 1]);
    }
    lemma_trim_end_take(r, 1);
    assert(r.take(1) =~= seq![c]);
    assert(crate::ingress::trim_end_spec(seq![c]) == seq![c]) by {
        assert(seq![c].last() == c);
    }
    lemma_encode_len(seq![c]);
}

/// Anonymizing one path on its own is exactly `anonymize_property`'s
/// effect, reported when it succeeded.
pub proof fn law_apply_one_path(j: JsonV, p: Seq<char>)
    ensures
        apply_paths(j, seq![p]) == (match anonymize_spec(j, p) {
            Some(n) => (n, seq![p]),
            None => (j, Seq::<Seq<char>>::empty()),
        }),
{
    let ps = seq![p];
    assert(ps.len() == 1);
    assert(ps.drop_last() =~= Seq::<Seq<char>>::empty());
    assert(ps.last() == p);
    assert(apply_paths(j, ps.drop_last()) == (j, Seq::<Seq<char>>::empty()));
    assert(Seq::<Seq<char>>::empty().push(p) =~= ps);
}

/// Anonymizing a list of paths is anonymizing its first part and then, on
/// the result, its second part; the reports follow one another.
pub proof fn law_apply_paths_composes(j: JsonV, a: Seq<Seq<char>>, b: Seq<Seq<char>>)
    ensures
        apply_paths(j, a + b) == ({
            let (j1, r1) = apply_paths(j, a);
            let (j2, r2) = apply_paths(j1, b);
            (j2, r1 + r2)
        }),
    decreases b.len(),
{
    if b.len() == 0 {
        assert(a + b =~= a);
        let r1 = apply_paths(j, a).1;
        assert(r1 + Seq::<Seq<char>>::empty() =~= r1);
    } else {
        law_apply_paths_composes(j, a, b.drop_last());
        assert((a + b).drop_last() =~= a + b.drop_last());
        assert((a + b).last() == b.last());
        let (j1, r1) = apply_paths(j, a);
        let (j2, r2) = apply_paths(j1, b.drop_last());
        match anonymize_spec(j2, b.last()) {
            Some(j3) => {
                assert((r1 + r2).push(b.last()) =~= r1 + r2.push(b.last()));
            },
            None => {},
        }
    }
}

/// Writing at a path leaves, at every object the path passes through, every
/// member other than the one the path continues with as it was.
pub proof fn lemma_set_path_frame_deep(
    j: JsonV,
    keys: Seq<Seq<char>>,
    v: JsonV,
    d: int,
    other: Seq<char>,
)
    requires
        0 <= d < keys.len(),
        other != keys[d],
    ensures
        set_path(j, keys, v) matches Some(n) ==> {
            &&& get_path(j, keys.take(d)) is Some
            &&& get_path(n, keys.take(d)) is Some
            &&& json_get(get_path(n, keys.take(d)).unwrap(), other) == json_get(
                get_path(j, keys.take(d)).unwrap(),
                other,
            )
        },
    decreases d,
{
    if let Some(n) = set_path(j, keys, v) {
        if d == 0 {
            assert(keys.take(0) =~= Seq::<Seq<char>>::empty());
            lemma_set_path_frame(j, keys, v, other);
        } else {
            if let JsonV::Object(ms) = j {
                lemma_find_key(ms, keys[0]);
                let i = find_key(ms, keys[0]).unwrap();
                let rest = keys.drop_first();
                let c = set_path(ms[i].1, rest, v).unwrap();
                lemma_set_path_frame_deep(ms[i].1, rest, v, d - 1, other);
                lemma_find_key_update(ms, i, c, keys[0]);
                assert(keys.take(d).drop_first() =~= rest.take(d - 1));
                assert(keys.take(d)[0] == keys[0]);
            }
        }
    }
}

/// Anonymizing a path keeps, at every object the path passes through, all
/// members but the one the path continues with.
pub proof fn law_anonymize_keeps_siblings(j: JsonV, path: Seq<char>, d: int, other: Seq<char>)
    requires
        0 <= d < path_keys(path).len(),
        other != path_keys(path)[d],
    ensures
        anonymize_spec(j, path) matches Some(n) ==> json_get(
            get_path(n, path_keys(path).take(d)).unwrap(),
            other,
        ) == json_get(get_path(j, path_keys(path).take(d)).unwrap(), other),
{
    lemma_set_path_frame_deep(j, path_keys(path), anonymized_value(), d, other);
}

/// The White_Space characters are exactly these code points.
pub proof fn law_white_space_code_points(c: char)
    ensures
        is_white_space(c) <==> seq![
            0x9u32, 0xA, 0xB, 0xC, 0xD, 0x20, 0x85, 0xA0, 0x1680, 0x2000, 0x2001, 0x2002, 0x2003,
            0x2004, 0x2005, 0x2006, 0x2007, 0x2008, 0x2009, 0x200A, 0x2028, 0x2029, 0x202F, 0x205F,
            0x3000,
        ].contains(c as u32),
{
    let ws = seq![
        0x9u32, 0xA, 0xB, 0xC, 0xD, 0x20, 0x85, 0xA0, 0x1680, 0x2000, 0x2001, 0x2002, 0x2003,
        0x2004, 0x2005, 0x2006, 0x2007, 0x2008, 0x2009, 0x200A, 0x2028, 0x2029, 0x202F, 0x205F,
        0x3000,
    ];
    let u = c as u32;
    if is_white_space(c) {
        if 0x9 <= u <= 0xD {
            assert(ws[(u - 0x9) as int] == u);
        } else if 0x2000 <= u <= 0x200A {
            assert(ws[(u - 0x2000 + 9) as int] == u);
        } else if u == 0x20 {
            assert(ws[5] == u);
        } else if u == 0x85 {
            assert(ws[6] == u);
        } else if u == 0xA0 {
            assert(ws[7] == u);
        } else if u == 0x1680 {
            assert(ws[8] == u);
        } else if u == 0x2028 {
            assert(ws[20] == u);
        } else if u == 0x2029 {
            assert(ws[21] == u);
        } else if u == 0x202F {
            assert(ws[22] == u);
        } else if u == 0x205F {
            assert(ws[23] == u);
        } else {
            assert(ws[24] == u);
        }
    }
    if ws.contains(u) {
        let k = choose|k: int| 0 <= k < ws.len() && ws[k] == u;
        assert(is_white_space(c));
    }
}

/// Trimming keeps one contiguous stretch of the text: everything cut from
/// the front and from the back is white space, and what is kept neither
/// starts nor ends with white space.
pub proof fn law_trim_cuts_only_white_space(s: Seq<char>)
    ensures
        exists|a: int, b: int|
            0 <= a <= b <= s.len() && trim_spec(s) == s.subrange(a, b) && (forall|k: int|
                0 <= k < a ==> is_white_space(#[trigger] s[k])) && (forall|k: int|
                b <= k < s.len() ==> is_white_space(#[trigger] s[k])) && (a < b ==> !is_white_space(
                s[a]) && !is_white_space(s[b - 1])),
{
    let (a, r) = lemma_trim_start_shape(s);
    let e = lemma_trim_end_shape(r);
    assert(trim_spec(s) == r.take(e));
    assert(r.take(e) =~= s.subrange(a, a + e));
    assert forall|k: int| a + e <= k < s.len() implies is_white_space(#[trigger] s[k]) by {
        assert(s[k] == r[k - a]);
    }
    if e > 0 {
        assert(s[a] == r[0]);
        assert(s[a + e - 1] == r[e - 1]);
    }
}

proof fn lemma_trim_start_shape(s: Seq<char>) -> (res: (int, Seq<char>))
    ensures
        0 <= res.0 <= s.len(),
        res.1 == s.skip(res.0),
        crate::ingress::trim_start_spec(s) == res.1,
        forall|k: int| 0 <= k < res.0 ==> is_white_space(#[trigger] s[k]),
        res.0 < s.len() ==> !is_white_space(s[res.0]),
    decreases s.len(),
{
    if s.len() > 0 && is_white_space(s[0]) {
        let (a, r) = lemma_trim_start_shape(s.drop_first());
        assert(s.drop_first().skip(a) =~= s.skip(a + 1));
        assert forall|k: int| 0 <= k < a + 1 implies is_white_space(#[trigger] s[k]) by {
            if k > 0 {
                assert(s[k] == s.drop_first()[k - 1]);
            }
        }
        (a + 1, r)
    } else {
        assert(s.skip(0) =~= s);
        (0, s)
    }
}

proof fn lemma_trim_end_shape(s: Seq<char>) -> (e: int)
    ensures
        0 <= e <= s.len(),
        crate::ingress::trim_end_spec(s) == s.take(e),
        forall|k: int| e <= k < s.len() ==> is_white_space(#[trigger] s[k]),
        e > 0 ==> !is_white_space(s[e - 1]),
    decreases s.len(),
{
    if s.len() > 0 && is_white_space(s.last()) {
        let e = lemma_trim_end_shape(s.drop_last());
        assert(s.drop_last().take(e) =~= s.take(e));
        assert forall|k: int| e <= k < s.len() implies is_white_space(#[trigger] s[k]) by {
            if k < s.len() - 1 {
                assert(s[k] == s.drop_last()[k]);
            }
        }
        e
    } else {
        assert(s.take(s.len() as int) =~= s);
        s.len() as int
    }
}

} // verus!

