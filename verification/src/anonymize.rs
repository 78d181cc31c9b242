use vstd::prelude::*;

use crate::helper::{anonymize_property, anonymize_spec, is_event_sensitive, is_sensitive_spec};
use crate::json::{json_get, json_view, json_wf, lemma_items_view, items_view, Json, JsonV};
use crate::json_text::{json_line, parse_line, parsed_line, to_line};
use crate::laws::lemma_process_event_wf;
use crate::naming::{
    file_name_for, is_plain_file_name, last_part, output_file_name, path_with_file_name,
    set_file_name,
};
use crate::pipeline::Pipeline;
use crate::text::strings_view;

verus! {

/// The member that lists the paths to anonymize.
pub open spec fn paths_key() -> Seq<char> {
    seq!['p', 'a', 't', 'h', 's']
}

/// The string items of an array, in order; other items are skipped.
pub open spec fn string_items(items: Seq<JsonV>) -> Seq<Seq<char>>
    decreases items.len(),
{
    if items.len() == 0 {
        Seq::empty()
    } else {
        let init = string_items(items.drop_last());
        match items.last() {
            JsonV::Str(s) => init.push(s),
            _ => init,
        }
    }
}

/// The paths an event asks to anonymize: the strings of its `paths` array,
/// or none when it has no such array.
pub open spec fn paths_spec(j: JsonV) -> Seq<Seq<char>> {
    match json_get(j, paths_key()) {
        Some(JsonV::Array(items)) => string_items(items),
        _ => Seq::empty(),
    }
}

/// Anonymizes `paths` one after the other, starting from `j`; gives the
/// resulting document and the paths that were anonymized, in order.
pub open spec fn apply_paths(j: JsonV, paths: Seq<Seq<char>>) -> (JsonV, Seq<Seq<char>>)
    decreases paths.len(),
{
    if paths.len() == 0 {
        (j, Seq::empty())
    } else {
        let (j1, done) = apply_paths(j, paths.drop_last());
        match anonymize_spec(j1, paths.last()) {
            Some(j2) => (j2, done.push(paths.last())),
            None => (j1, done),
        }
    }
}

/// What the anonymizer makes of one event: a sensitive event has each of its
/// paths anonymized; any other event passes unchanged.
pub open spec fn process_event(j: JsonV) -> (JsonV, Seq<Seq<char>>) {
    if is_sensitive_spec(j) {
        apply_paths(j, paths_spec(j))
    } else {
        (j, Seq::empty())
    }
}

/// The documents that a file's lines hold: `None` for a line that could not
/// be read, or that is not JSON.
pub open spec fn lines_parsed(lines: Seq<Option<String>>) -> Seq<Option<JsonV>> {
    lines.map_values(
        |o: Option<String>|
            match o {
                Some(t) => parsed_line(t@),
                None => None,
            },
    )
}

/// What the anonymizer writes for a file's lines: one processed event per
/// parsed line, in order; the other lines are dropped.
pub open spec fn read_spec(lines: Seq<Option<JsonV>>) -> Seq<(JsonV, Seq<Seq<char>>)>
    decreases lines.len(),
{
    if lines.len() == 0 {
        Seq::empty()
    } else {
        let init = read_spec(lines.drop_last());
        match lines.last() {
            Some(j) => init.push(process_event(j)),
            None => init,
        }
    }
}

/// An event after anonymization, with the paths that were anonymized in it
/// and the line of JSON that writes it.
pub struct AnonymizedEvent {
    pub event: Json,
    pub anonymized: Vec<String>,
    pub text: String,
}

impl View for AnonymizedEvent {
    type V = (JsonV, Seq<Seq<char>>);

    open spec fn view(&self) -> (JsonV, Seq<Seq<char>>) {
        (json_view(self.event), strings_view(self.anonymized@))
    }
}

/// The paths that `json` lists under `paths`.
pub fn sensitive_paths(json: &Json) -> (paths: Vec<String>)
    ensures
        strings_view(paths@) == paths_spec(json@),
{
    let key = String::from_str("paths");
    proof {
        reveal_strlit("paths");
        assert(key@ =~= paths_key());
    }
    let mut paths: Vec<String> = Vec::new();
    match json.get(&key) {
        Some(Json::Array(items)) => {
            proof {
                lemma_items_view(items@);
            }
            let mut i: usize = 0;
            while i < items.len()
                invariant
                    0 <= i <= items.len(),
                    items_view(items@).len() == items.len(),
                    forall|k: int|
                        0 <= k < items.len() ==> #[trigger] items_view(items@)[k] == json_view(
                            items@[k],
                        ),
                    strings_view(paths@) == string_items(items_view(items@).take(i as int)),
                decreases items.len() - i,
            {
                assert(items_view(items@).take(i + 1).drop_last() =~= items_view(items@).take(
                    i as int,
                ));
                match &items[i] {
                    Json::Str(s) => {
                        paths.push(s.clone());
                    },
                    _ => {},
                }
                assert(strings_view(paths@) =~= string_items(items_view(items@).take(i + 1)));
                i = i + 1;
            }
            assert(items_view(items@).take(items.len() as int) =~= items_view(items@));
            paths
        },
        _ => {
            assert(strings_view(paths@) =~= Seq::<Seq<char>>::empty());
            paths
        },
    }
}

/// Anonymizes one event: when it is sensitive, each path it lists is
/// anonymized in turn; the event is then written as a line of JSON.
pub fn anonymize_event(json: Json) -> (res: AnonymizedEvent)
    ensures
        res@ == process_event(json@),
        res.text@ == json_line(res@.0),
        json_wf(json@) ==> json_wf(res@.0),
{
    proof {
        if json_wf(json@) {
            lemma_process_event_wf(json@);
        }
    }
    let mut json = json;
    let mut anonymized: Vec<String> = Vec::new();
    if !is_event_sensitive(&json) {
        assert(strings_view(anonymized@) =~= Seq::<Seq<char>>::empty());
        let text = to_line(&json);
        return AnonymizedEvent { event: json, anonymized, text };
    }
    let ghost start = json@;
    let paths = sensitive_paths(&json);
    let mut i: usize = 0;
    while i < paths.len()
        invariant
            0 <= i <= paths.len(),
            strings_view(paths@) == paths_spec(start),
            (json@, strings_view(anonymized@)) == apply_paths(
                start,
                strings_view(paths@).take(i as int),
            ),
        decreases paths.len() - i,
    {
        let ghost ps = strings_view(paths@);
        assert(ps.take(i + 1).drop_last() =~= ps.take(i as int));
        assert(ps.take(i + 1).last() == paths@[i as int]@);
        if anonymize_property(&mut json, paths[i].as_str()) {
            anonymized.push(paths[i].clone());
            assert(strings_view(anonymized@) =~= apply_paths(start, ps.take(i + 1)).1);
        }
        i = i + 1;
    }
    assert(strings_view(paths@).take(paths.len() as int) =~= strings_view(paths@));
    let text = to_line(&json);
    AnonymizedEvent { event: json, anonymized, text }
}

/// The stage that anonymizes the properties of sensitive events.
pub struct Anonymize {
    pub next: Option<Box<Pipeline>>,
}

impl Anonymize {
    /// Names the file that receives the anonymized content: `file_path` gets
    /// the file name `<uuid>.json`, in the same folder.
    pub fn name_output(&self, file_path: &mut String, uuid: u128)
        ensures
            final(file_path)@ == path_with_file_name(old(file_path)@, file_name_for(uuid)),
            is_plain_file_name(last_part(old(file_path)@)) ==> path_with_file_name(
                final(file_path)@,
                file_name_for(uuid),
            ) == final(file_path)@,
    {
        let name = output_file_name(uuid);
        let renamed = set_file_name(file_path.as_str(), name.as_str());
        *file_path = renamed;
    }

    /// Anonymizes the lines of a file: each line that was read and parses as
    /// JSON becomes an event processed by `anonymize_event`, with the line of
    /// JSON that writes it; the other lines are dropped.
    pub fn anonymize_lines(&self, lines: Vec<Option<String>>) -> (events: Vec<AnonymizedEvent>)
        ensures
            events@.len() == read_spec(lines_parsed(lines@)).len(),
            forall|i: int|
                0 <= i < events@.len() ==> {
                    &&& #[trigger] events@[i]@ == read_spec(lines_parsed(lines@))[i]
                    &&& events@[i].text@ == json_line(events@[i]@.0)
                    &&& json_wf(events@[i]@.0)
                },
    {
        let ghost all = lines_parsed(lines@);
        let mut events: Vec<AnonymizedEvent> = Vec::new();
        for line in it: lines
            invariant
                it.seq() == lines@,
                all == lines_parsed(lines@),
                events@.len() == read_spec(all.take(it.index())).len(),
                forall|i: int|
                    0 <= i < events@.len() ==> {
                        &&& #[trigger] events@[i]@ == read_spec(all.take(it.index()))[i]
                        &&& events@[i].text@ == json_line(events@[i]@.0)
                        &&& json_wf(events@[i]@.0)
                    },
        {
            let ghost k = it.index();
            assert(all.take(k + 1).drop_last() =~= all.take(k));
            assert(all.take(k + 1).last() == all[k]);
            match line {
                Some(text) => {
                    match parse_line(text.as_str()) {
                        Some(json) => {
                            let ev = anonymize_event(json);
                            events.push(ev);
                        },
                        None => {},
                    }
                },
                None => {},
            }
        }
        assert(all.take(lines@.len() as int) =~= all);
        events
    }

    /// Reads the content of the file and anonymizes the properties based on
    /// the paths provided in the JSON, and names the file that receives the
    /// result (later published): `file_path` gets the file name
    /// `<uuid>.json`, in the same folder.
    pub fn read(&self, lines: Vec<Option<String>>, file_path: &mut String, uuid: u128) -> (events:
        Vec<AnonymizedEvent>)
        ensures
            final(file_path)@ == path_with_file_name(old(file_path)@, file_name_for(uuid)),
            is_plain_file_name(last_part(old(file_path)@)) ==> path_with_file_name(
                final(file_path)@,
                file_name_for(uuid),
            ) == final(file_path)@,
            events@.len() == read_spec(lines_parsed(lines@)).len(),
            forall|i: int|
                0 <= i < events@.len() ==> {
                    &&& #[trigger] events@[i]@ == read_spec(lines_parsed(lines@))[i]
                    &&& events@[i].text@ == json_line(events@[i]@.0)
                    &&& json_wf(events@[i]@.0)
                },
    {
        self.name_output(file_path, uuid);
        self.anonymize_lines(lines)
    }
}

} // verus!
