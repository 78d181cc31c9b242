use vstd::prelude::*;
use vstd::arithmetic::power::pow;

use crate::text::split_spec;

verus! {

/// The lowercase hexadecimal digit for `n` in `0..16`.
pub open spec fn hex_char(n: int) -> char {
    if n < 10 {
        (48 + n) as char
    } else {
        (87 + n) as char
    }
}

/// The 32 hexadecimal digits of `v`, most significant first.
pub open spec fn hex_digits(v: u128) -> Seq<char> {
    Seq::new(32, |i: int| hex_char((v as int / pow(16, (31 - i) as nat)) % 16))
}

/// The hyphenated text of the identifier `v`: its 32 lowercase hexadecimal
/// digits in groups of 8, 4, 4, 4 and 12, joined by `-`.
pub open spec fn uuid_text(v: u128) -> Seq<char> {
    let h = hex_digits(v);
    h.subrange(0, 8) + seq!['-'] + h.subrange(8, 12) + seq!['-'] + h.subrange(12, 16) + seq!['-']
        + h.subrange(16, 20) + seq!['-'] + h.subrange(20, 32)
}

/// The extension of the files that the pipeline writes.
pub open spec fn json_extension() -> Seq<char> {
    seq!['.', 'j', 's', 'o', 'n']
}

/// The name of the file that holds the anonymized content of a run.
pub open spec fn file_name_for(id: u128) -> Seq<char> {
    uuid_text(id) + json_extension()
}

/// A file name that is a single ordinary path component: not empty, without
/// `/`, and neither `.` nor `..`.
pub open spec fn is_plain_file_name(name: Seq<char>) -> bool {
    &&& name.len() > 0
    &&& !name.contains('/')
    &&& name != seq!['.']
    &&& name != seq!['.', '.']
}

/// The last `/`-separated piece of a path.
pub open spec fn last_part(path: Seq<char>) -> Seq<char> {
    split_spec(path, '/').last()
}

/// What `std::path::PathBuf::set_file_name` makes of `path` with `name`.
pub uninterp spec fn path_with_file_name(path: Seq<char>, name: Seq<char>) -> Seq<char>;

/// The output file name is a plain file name: hexadecimal digits, hyphens
/// and `.json`, with no `/`.
pub proof fn lemma_file_name_for_plain(id: u128)
    ensures
        is_plain_file_name(file_name_for(id)),
{
    let n = file_name_for(id);
    let h = hex_digits(id);
    assert forall|i: int| 0 <= i < 32 implies #[trigger] h[i] != '/' by {
        let d = (id as int / pow(16, (31 - i) as nat)) % 16;
        assert(0 <= d < 16);
    }
    assert(n.len() == 41);
    assert forall|i: int| 0 <= i < n.len() implies #[trigger] n[i] != '/' by {
        if i < 8 {
            assert(n[i] == h[i]);
        } else if i == 8 || i == 13 || i == 18 || i == 23 {
        } else if i < 13 {
            assert(n[i] == h[i - 1]);
        } else if i < 18 {
            assert(n[i] == h[i - 2]);
        } else if i < 23 {
            assert(n[i] == h[i - 3]);
        } else if i < 36 {
            assert(n[i] == h[i - 4]);
        }
    }
}

/// What `std::path::PathBuf::push` makes of `base` with `name` on a Unix
/// target: a name that starts at the root replaces the base; any other name is
/// appended, after a `/` when the base is not empty and does not already end
/// in one.
pub open spec fn path_joined(base: Seq<char>, name: Seq<char>) -> Seq<char> {
    if name.len() > 0 && name[0] == '/' {
        name
    } else if base.len() > 0 && base.last() != '/' {
        base + seq!['/'] + name
    } else {
        base + name
    }
}

/// Formats the identifier with `uuid::Uuid::from_u128` and its `Display`
/// impl, which writes the hyphenated lowercase form.
#[verifier::external_body]
fn uuid_hyphenated(id: u128) -> (text: String)
    ensures
        text@ == uuid_text(id),
{
    uuid::Uuid::from_u128(id).to_string()
}

/// `std::path::PathBuf::set_file_name` on `path`. The result depends on the
/// two arguments alone; what it is for a given pair is left unsaid, except
/// this: when the path ends in a plain file name, set_file_name pops it to
/// the (trimmed) parent and pushes `name`, so setting the same plain name
/// again pops to that same parent and gives the same path back.
#[verifier::external_body]
pub(crate) fn set_file_name(path: &str, name: &str) -> (res: String)
    ensures
        res@ == path_with_file_name(path@, name@),
        is_plain_file_name(last_part(path@)) && is_plain_file_name(name@) ==> path_with_file_name(
            res@,
            name@,
        ) == res@,
{
    let mut p = std::path::PathBuf::from(path);
    p.set_file_name(name);
    p.to_string_lossy().into_owned()
}

/// `std::path::PathBuf::push` of `name` onto `base`, as std documents it for
/// Unix targets (where `/` is the only separator and a path is absolute
/// exactly when it starts with `/`).
#[verifier::external_body]
pub(crate) fn push_path(base: &str, name: &str) -> (res: String)
    ensures
        res@ == path_joined(base@, name@),
{
    let mut p = std::path::PathBuf::from(base);
    p.push(name);
    p.to_string_lossy().into_owned()
}

/// The file name `<uuid>.json` under which a run's output is written and
/// published.
pub fn output_file_name(id: u128) -> (name: String)
    ensures
        name@ == file_name_for(id),
        is_plain_file_name(name@),
{
    let mut name = uuid_hyphenated(id);
    name.append(".json");
    proof {
        reveal_strlit(".json");
        assert(".json"@ =~= json_extension());
        lemma_file_name_for_plain(id);
    }
    name
}

} // verus!
