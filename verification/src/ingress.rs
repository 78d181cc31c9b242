use vstd::prelude::*;
use vstd::utf8::encode_utf8;

use crate::text::strings_view;

verus! {

broadcast use vstd::string::group_string_axioms;

/// Whether `c` has the Unicode `White_Space` property, which is what
/// `char::is_whitespace` and `str::trim` go by.
pub open spec fn is_white_space(c: char) -> bool {
    let u = c as u32;
    ||| 0x9 <= u <= 0xD
    ||| u == 0x20
    ||| u == 0x85
    ||| u == 0xA0
    ||| u == 0x1680
    ||| 0x2000 <= u <= 0x200A
    ||| u == 0x2028
    ||| u == 0x2029
    ||| u == 0x202F
    ||| u == 0x205F
    ||| u == 0x3000
}

/// `s` without its leading white space.
pub open spec fn trim_start_spec(s: Seq<char>) -> Seq<char>
    decreases s.len(),
{
    if s.len() > 0 && is_white_space(s[0]) {
        trim_start_spec(s.drop_first())
    } else {
        s
    }
}

/// `s` without its trailing white space.
pub open spec fn trim_end_spec(s: Seq<char>) -> Seq<char>
    decreases s.len(),
{
    if s.len() > 0 && is_white_space(s.last()) {
        trim_end_spec(s.drop_last())
    } else {
        s
    }
}

/// `s` without leading and trailing white space, as `str::trim` gives it.
pub open spec fn trim_spec(s: Seq<char>) -> Seq<char> {
    trim_end_spec(trim_start_spec(s))
}

fn white_space(c: char) -> (b: bool)
    ensures
        b == is_white_space(c),
{
    let u = c as u32;
    (0x9 <= u && u <= 0xD) || u == 0x20 || u == 0x85 || u == 0xA0 || u == 0x1680 || (0x2000 <= u
        && u <= 0x200A) || u == 0x2028 || u == 0x2029 || u == 0x202F || u == 0x205F || u == 0x3000
}

pub proof fn lemma_trim_start_skip(s: Seq<char>, i: int)
    requires
        0 <= i <= s.len(),
        forall|k: int| 0 <= k < i ==> is_white_space(#[trigger] s[k]),
    ensures
        trim_start_spec(s) == trim_start_spec(s.skip(i)),
    decreases i,
{
    if i > 0 {
        lemma_trim_start_skip(s.drop_first(), i - 1);
        assert(s.drop_first().skip(i - 1) =~= s.skip(i));
    } else {
        assert(s.skip(0) =~= s);
    }
}

pub proof fn lemma_trim_end_take(s: Seq<char>, j: int)
    requires
        0 <= j <= s.len(),
        forall|k: int| j <= k < s.len() ==> is_white_space(#[trigger] s[k]),
    ensures
        trim_end_spec(s) == trim_end_spec(s.take(j)),
    decreases s.len() - j,
{
    if j < s.len() {
        lemma_trim_end_take(s.drop_last(), j);
        assert(s.drop_last().take(j) =~= s.take(j));
    } else {
        assert(s.take(j) =~= s);
    }
}

pub proof fn lemma_encode_len(s: Seq<char>)
    ensures
        encode_utf8(s).len() >= s.len(),
        encode_utf8(s).len() == 1 <==> (s.len() == 1 && (s[0] as u32) <= 0x7F),
    decreases s.len(),
{
    if s.len() > 0 {
        lemma_encode_len(s.drop_first());
        if s.len() == 1 {
            assert(encode_utf8(s.drop_first()) =~= Seq::<u8>::empty());
        }
    }
}

/// Whether a line typed at the ingress prompt asks for a scan: once white
/// space is trimmed from both ends, it must be exactly one byte long.
pub fn is_scan_request(line: &str) -> (scan: bool)
    ensures
        scan == (encode_utf8(trim_spec(line@)).len() == 1),
{
    let mut chars: Vec<char> = Vec::new();
    for c in it: line.chars()
        invariant
            it.seq() == line@,
            chars@ == line@.take(it.index()),
    {
        chars.push(c);
    }
    assert(chars@ =~= line@);
    let ghost s = line@;
    let mut start: usize = 0;
    while start < chars.len() && white_space(chars[start])
        invariant
            chars@ == s,
            0 <= start <= chars.len(),
            forall|k: int| 0 <= k < start ==> is_white_space(#[trigger] s[k]),
        decreases chars.len() - start,
    {
        start = start + 1;
    }
    proof {
        lemma_trim_start_skip(s, start as int);
    }
    let ghost rest = s.skip(start as int);
    assert(rest.len() > 0 ==> !is_white_space(rest[0]));
    assert(trim_start_spec(rest) == rest);
    let mut end: usize = chars.len();
    while end > start && white_space(chars[end - 1])
        invariant
            chars@ == s,
            start <= end <= chars.len(),
            rest == s.skip(start as int),
            forall|k: int| end - start <= k < rest.len() ==> is_white_space(#[trigger] rest[k]),
        decreases end,
    {
        end = end - 1;
    }
    proof {
        lemma_trim_end_take(rest, end - start);
        let t = rest.take(end - start);
        assert(t.len() > 0 ==> t.last() == rest[end - start - 1]);
        assert(trim_end_spec(t) == t);
        lemma_encode_len(t);
    }
    end - start == 1 && (chars[start] as u32) <= 0x7F
}

/// The entries of a listing that were not seen before, each once, in the
/// order in which the listing first names them.
pub open spec fn fresh_spec(seen: Seq<Seq<char>>, listed: Seq<Seq<char>>) -> Seq<Seq<char>>
    decreases listed.len(),
{
    if listed.len() == 0 {
        Seq::empty()
    } else {
        let init = fresh_spec(seen, listed.drop_last());
        let x = listed.last();
        if seen.contains(x) || init.contains(x) {
            init
        } else {
            init.push(x)
        }
    }
}

/// The fresh entries are exactly the listed ones not seen before, and none
/// comes twice.
pub proof fn lemma_fresh_spec(seen: Seq<Seq<char>>, listed: Seq<Seq<char>>)
    ensures
        forall|x: Seq<char>|
            #[trigger] fresh_spec(seen, listed).contains(x) <==> (listed.contains(x)
                && !seen.contains(x)),
        fresh_spec(seen, listed).no_duplicates(),
    decreases listed.len(),
{
    if listed.len() > 0 {
        let init = listed.drop_last();
        lemma_fresh_spec(seen, init);
        let f0 = fresh_spec(seen, init);
        let f = fresh_spec(seen, listed);
        assert forall|x: Seq<char>| #[trigger] f.contains(x) <==> (listed.contains(x)
            && !seen.contains(x)) by {
            if listed.contains(x) {
                let k = choose|k: int| 0 <= k < listed.len() && listed[k] == x;
                if k < listed.len() - 1 {
                    assert(init[k] == x);
                }
            }
            if init.contains(x) {
                let k = choose|k: int| 0 <= k < init.len() && init[k] == x;
                assert(listed[k] == x);
            }
            if f.contains(x) && !f0.contains(x) {
                let k = choose|k: int| 0 <= k < f.len() && f[k] == x;
                assert(k == f.len() - 1);
                assert(listed[listed.len() - 1] == x);
            }
            if f0.contains(x) {
                let k = choose|k: int| 0 <= k < f0.len() && f0[k] == x;
                assert(f[k] == x);
            }
            if listed.contains(x) && !seen.contains(x) && !init.contains(x) {
                assert(x == listed.last());
                assert(f[f.len() - 1] == x);
            }
        }
    }
}

/// The files already announced, so that a later scan skips them.
pub struct ScanLog {
    seen: Vec<String>,
}

impl View for ScanLog {
    type V = Seq<Seq<char>>;

    closed spec fn view(&self) -> Seq<Seq<char>> {
        strings_view(self.seen@)
    }
}

fn contains_string(v: &Vec<String>, x: &String) -> (found: bool)
    ensures
        found == strings_view(v@).contains(x@),
{
    let mut i: usize = 0;
    while i < v.len()
        invariant
            0 <= i <= v.len(),
            forall|k: int| 0 <= k < i ==> v@[k]@ != x@,
        decreases v.len() - i,
    {
        if v[i] == *x {
            assert(strings_view(v@)[i as int] == x@);
            return true;
        }
        i = i + 1;
    }
    assert forall|k: int| 0 <= k < strings_view(v@).len() implies strings_view(v@)[k] != x@ by {
        assert(strings_view(v@)[k] == v@[k]@);
    }
    false
}

impl ScanLog {
    /// No file has been seen yet.
    pub fn new() -> (log: Self)
        ensures
            log@ == Seq::<Seq<char>>::empty(),
    {
        let log = ScanLog { seen: Vec::new() };
        assert(log@ =~= Seq::<Seq<char>>::empty());
        log
    }

    /// The files seen so far, in the order in which they were first seen.
    pub fn seen(&self) -> (seen: &Vec<String>)
        ensures
            strings_view(seen@) == self@,
    {
        &self.seen
    }

    /// Takes a directory listing and returns the entries that were not seen
    /// before, each once and in listing order; they count as seen afterwards.
    pub fn fresh(&mut self, listed: Vec<String>) -> (fresh: Vec<String>)
        ensures
            strings_view(fresh@) == fresh_spec(old(self)@, strings_view(listed@)),
            forall|x: Seq<char>|
                #[trigger] strings_view(fresh@).contains(x) <==> (strings_view(listed@).contains(x)
                    && !old(self)@.contains(x)),
            strings_view(fresh@).no_duplicates(),
            final(self)@ == old(self)@ + strings_view(fresh@),
    {
        let ghost seen0 = self@;
        let ghost all = strings_view(listed@);
        let mut fresh: Vec<String> = Vec::new();
        for item in it: listed
            invariant
                it.seq() == listed@,
                all == strings_view(listed@),
                strings_view(fresh@) == fresh_spec(seen0, all.take(it.index())),
                self@ == seen0 + strings_view(fresh@),
        {
            let ghost k = it.index();
            assert(all.take(k + 1).drop_last() =~= all.take(k));
            assert(all.take(k + 1).last() == item@);
            let ghost f0 = strings_view(fresh@);
            assert(forall|x: Seq<char>| (seen0 + f0).contains(x) <==> (seen0.contains(x) || f0.contains(x))) by {
                assert forall|x: Seq<char>| (seen0 + f0).contains(x) <==> (seen0.contains(x) || f0.contains(x)) by {
                    if (seen0 + f0).contains(x) {
                        let j = choose|j: int| 0 <= j < (seen0 + f0).len() && (seen0 + f0)[j] == x;
                        if j >= seen0.len() {
                            assert(f0[j - seen0.len()] == x);
                        }
                    }
                    if f0.contains(x) {
                        let j = choose|j: int| 0 <= j < f0.len() && f0[j] == x;
                        assert((seen0 + f0)[j + seen0.len()] == x);
                    }
                    if seen0.contains(x) {
                        let j = choose|j: int| 0 <= j < seen0.len() && seen0[j] == x;
                        assert((seen0 + f0)[j] == x);
                    }
                }
            }
            if !contains_string(&self.seen, &item) {
                let copy = item.clone();
                let ghost s0 = self.seen@;
                fresh.push(item);
                self.seen.push(copy);
                assert(strings_view(fresh@) =~= f0.push(all.take(k + 1).last()));
                assert(strings_view(self.seen@) =~= strings_view(s0).push(copy@));
                assert(self@ =~= seen0 + strings_view(fresh@));
            }
        }
        assert(all.take(listed@.len() as int) =~= all);
        proof {
            lemma_fresh_spec(seen0, all);
        }
        fresh
    }
}

} // verus!
