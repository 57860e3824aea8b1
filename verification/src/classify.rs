//! File Classifier: decides which entries of a directory listing are
//! candidate log files.
//!
//! A directory entry qualifies iff it is a regular file, its name carries the
//! `log` extension (case-sensitive), and its name does not contain the tool's
//! own identifying token, so the tool never recompresses its own output.

use vstd::prelude::*;

verus! {

/// The suffix that marks a log file: a dot followed by the extension.
pub open spec fn log_suffix() -> Seq<char> {
    seq!['.', 'l', 'o', 'g']
}

/// The tool's self-identifying token; names containing it are never candidates.
pub open spec fn self_token() -> Seq<char> {
    seq!['l', 'o', 'g', '_', 'c', 'o', 'm', 'p', 'r', 'e', 's', 's', 'o', 'r']
}

/// A name has the `log` extension iff it ends in `.log` and at least one
/// character precedes the dot, matching how a path's extension is read
/// (a bare `.log` is a hidden file without an extension).
pub open spec fn has_log_ext(name: Seq<char>) -> bool {
    name.len() >= 5 && name.subrange(name.len() - 4, name.len() as int) == log_suffix()
}

/// The token occurs somewhere in the name.
pub open spec fn contains_token(name: Seq<char>) -> bool {
    exists|i: int|
        0 <= i && i + self_token().len() <= name.len() && #[trigger] name.subrange(
            i,
            i + self_token().len(),
        ) == self_token()
}

/// A name is eligible iff it has the log extension and is free of the token.
pub open spec fn eligible_name(name: Seq<char>) -> bool {
    has_log_ext(name) && !contains_token(name)
}

/// One entry of the scanned directory, as the shell reports it: its base
/// name, whether it is a regular file, and its size at discovery time.
pub struct ScanEntry {
    pub name: String,
    pub is_file: bool,
    pub size: u64,
}

/// Mathematical image of a `ScanEntry`.
pub struct ScanEntryV {
    pub name: Seq<char>,
    pub is_file: bool,
    pub size: u64,
}

impl View for ScanEntry {
    type V = ScanEntryV;

    open spec fn view(&self) -> ScanEntryV {
        ScanEntryV { name: self.name@, is_file: self.is_file, size: self.size }
    }
}

impl DeepView for ScanEntry {
    type V = ScanEntryV;

    open spec fn deep_view(&self) -> ScanEntryV {
        self.view()
    }
}

/// A discovered file eligible for compression: its base name and its size
/// in bytes at discovery time.
pub struct Candidate {
    pub name: String,
    pub size: u64,
}

/// Mathematical image of a `Candidate`.
pub struct CandidateV {
    pub name: Seq<char>,
    pub size: u64,
}

impl View for Candidate {
    type V = CandidateV;

    open spec fn view(&self) -> CandidateV {
        CandidateV { name: self.name@, size: self.size }
    }
}

impl DeepView for Candidate {
    type V = CandidateV;

    open spec fn deep_view(&self) -> CandidateV {
        self.view()
    }
}

/// An entry is selected iff it is a regular file with an eligible name.
pub open spec fn selected(e: ScanEntryV) -> bool {
    e.is_file && eligible_name(e.name)
}

/// The candidate drawn from a selected entry.
pub open spec fn candidate_of(e: ScanEntryV) -> CandidateV {
    CandidateV { name: e.name, size: e.size }
}

/// The candidate set of a directory listing: the selected entries, in
/// listing order, each reduced to name and size.
pub open spec fn candidates_of(es: Seq<ScanEntryV>) -> Seq<CandidateV>
    decreases es.len(),
{
    if es.len() == 0 {
        Seq::empty()
    } else if selected(es.last()) {
        candidates_of(es.drop_last()).push(candidate_of(es.last()))
    } else {
        candidates_of(es.drop_last())
    }
}

/// Whether `name` matches the self token at offset `i`.
fn token_match_at(name: &str, i: usize) -> (r: bool)
    requires
        i + self_token().len() <= name@.len(),
        name@.len() <= usize::MAX,
    ensures
        r == (name@.subrange(i as int, i + self_token().len()) == self_token()),
{
    let pat = "log_compressor";
    proof {
        reveal_strlit("log_compressor");
        assert(pat@ =~= self_token());
    }
    let mut j: usize = 0;
    while j < 14
        invariant
            0 <= j <= 14,
            i + 14 <= name@.len(),
            name@.len() <= usize::MAX,
            pat@ =~= self_token(),
            forall|k: int| 0 <= k < j ==> name@[i + k] == self_token()[k],
        decreases 14 - j,
    {
        if name.get_char(i + j) != pat.get_char(j) {
            proof {
                assert(name@.subrange(i as int, i + self_token().len())[j as int] == name@[i + j]);
            }
            return false;
        }
        j += 1;
    }
    proof {
        assert(name@.subrange(i as int, i + self_token().len()) =~= self_token());
    }
    true
}

/// Whether the self token occurs anywhere in `name`.
pub fn name_contains_token(name: &str) -> (r: bool)
    ensures
        r == contains_token(name@),
{
    let n = name.unicode_len();
    if n < 14 {
        return false;
    }
    let mut i: usize = 0;
    while i <= n - 14
        invariant
            n == name@.len(),
            14 <= n,
            0 <= i <= n,
            forall|k: int|
                0 <= k < i ==> #[trigger] name@.subrange(k, k + self_token().len())
                    != self_token(),
        decreases n - i,
    {
        if token_match_at(name, i) {
            return true;
        }
        i += 1;
    }
    false
}

/// Whether `name` carries the `log` extension.
pub fn name_has_log_ext(name: &str) -> (r: bool)
    ensures
        r == has_log_ext(name@),
{
    let n = name.unicode_len();
    if n < 5 {
        return false;
    }
    let r = name.get_char(n - 4) == '.' && name.get_char(n - 3) == 'l' && name.get_char(n - 2)
        == 'o' && name.get_char(n - 1) == 'g';
    proof {
        if r {
            assert(name@.subrange(name@.len() - 4, name@.len() as int) =~= log_suffix());
        } else {
            assert(name@.subrange(name@.len() - 4, name@.len() as int) != log_suffix()) by {
                if name@.subrange(name@.len() - 4, name@.len() as int) == log_suffix() {
                    assert(name@[name@.len() - 4] == log_suffix()[0]);
                    assert(name@[name@.len() - 3] == log_suffix()[1]);
                    assert(name@[name@.len() - 2] == log_suffix()[2]);
                    assert(name@[name@.len() - 1] == log_suffix()[3]);
                }
            }
        }
    }
    r
}

/// Whether an entry of the listing is selected as a candidate.
pub fn entry_selected(e: &ScanEntry) -> (r: bool)
    ensures
        r == selected(e@),
{
    e.is_file && name_has_log_ext(e.name.as_str()) && !name_contains_token(e.name.as_str())
}

/// Classify a directory listing: keep exactly the regular files with an
/// eligible name, in listing order, as candidates. The result is pinned
/// by the listing alone, so an unchanged directory yields the same
/// candidate set on every scan.
pub fn classify(entries: &Vec<ScanEntry>) -> (r: Vec<Candidate>)
    ensures
        r.deep_view() == candidates_of(entries.deep_view()),
{
    let ghost evs: Seq<ScanEntryV> = entries.deep_view();
    let mut r: Vec<Candidate> = Vec::new();
    let mut i: usize = 0;
    proof {
        assert(evs.take(0) =~= Seq::<ScanEntryV>::empty());
    }
    while i < entries.len()
        invariant
            evs == entries.deep_view(),
            evs.len() == entries@.len(),
            forall|k: int| 0 <= k < evs.len() ==> evs[k] == #[trigger] entries@[k]@,
            0 <= i <= entries@.len(),
            r.deep_view() == candidates_of(evs.take(i as int)),
        decreases entries@.len() - i,
    {
        let e = &entries[i];
        let ghost prefix = evs.take(i as int);
        if entry_selected(e) {
            let c = Candidate { name: clone_string(&e.name), size: e.size };
            r.push(c);
        }
        proof {
            assert(evs.take(i + 1).drop_last() =~= prefix);
            assert(evs.take(i + 1).last() == evs[i as int]);
            assert(r.deep_view() =~= candidates_of(evs.take(i + 1)));
        }
        i += 1;
    }
    proof {
        assert(evs.take(evs.len() as int) =~= evs);
    }
    r
}

/// Copy a string, keeping its characters.
fn clone_string(s: &String) -> (r: String)
    ensures
        r@ == s@,
{
    String::from_str(s.as_str())
}

/// Soundness of the classifier: every candidate stems from a listed entry
/// that is a regular file, has the `log` extension, and is free of the
/// self token; entries failing any of these are never selected.
pub proof fn lemma_candidates_sound(es: Seq<ScanEntryV>)
    ensures
        forall|i: int|
            0 <= i < candidates_of(es).len() ==> {
                let c = #[trigger] candidates_of(es)[i];
                has_log_ext(c.name) && !contains_token(c.name) && exists|j: int|
                    0 <= j < es.len() && #[trigger] es[j].is_file && es[j].name == c.name
                        && es[j].size == c.size
            },
    decreases es.len(),
{
    if es.len() > 0 {
        lemma_candidates_sound(es.drop_last());
        let rest = candidates_of(es.drop_last());
        assert forall|i: int| 0 <= i < candidates_of(es).len() implies {
            let c = #[trigger] candidates_of(es)[i];
            has_log_ext(c.name) && !contains_token(c.name) && exists|j: int|
                0 <= j < es.len() && #[trigger] es[j].is_file && es[j].name == c.name && es[j].size
                    == c.size
        } by {
            let c = candidates_of(es)[i];
            if i < rest.len() {
                assert(rest[i] == c);
                let j = choose|j: int|
                    0 <= j < es.drop_last().len() && #[trigger] es.drop_last()[j].is_file
                        && es.drop_last()[j].name == c.name && es.drop_last()[j].size == c.size;
                assert(es[j].is_file && es[j].name == c.name && es[j].size == c.size);
            } else {
                assert(c == candidate_of(es.last()));
                let j = es.len() - 1;
                assert(es[j].is_file && es[j].name == c.name && es[j].size == c.size);
            }
        }
    }
}

/// A directory lists each name once, and the classifier keeps that: the
/// candidates drawn from a listing with pairwise-distinct names have
/// pairwise-distinct names themselves. With the archive name keeping the
/// source name apart, no two candidates of one run contend for the same
/// source or Archive Target path.
pub proof fn lemma_candidates_unique(es: Seq<ScanEntryV>)
    requires
        forall|j: int, k: int|
            #![trigger es[j], es[k]]
            0 <= j < k < es.len() ==> es[j].name != es[k].name,
    ensures
        forall|j: int, k: int|
            #![trigger candidates_of(es)[j], candidates_of(es)[k]]
            0 <= j < k < candidates_of(es).len() ==> candidates_of(es)[j].name
                != candidates_of(es)[k].name,
    decreases es.len(),
{
    if es.len() > 0 {
        let dl = es.drop_last();
        lemma_candidates_unique(dl);
        lemma_candidates_sound(dl);
        let cs = candidates_of(es);
        let rest = candidates_of(dl);
        assert forall|j: int, k: int|
            #![trigger cs[j], cs[k]]
            0 <= j < k < cs.len() implies cs[j].name != cs[k].name by {
            if k < rest.len() {
                assert(cs[j] == rest[j] && cs[k] == rest[k]);
            } else {
                assert(selected(es.last()) && k == rest.len());
                assert(cs[k] == candidate_of(es.last()));
                assert(cs[j] == rest[j]);
                let m = choose|m: int|
                    0 <= m < dl.len() && #[trigger] dl[m].is_file && dl[m].name == rest[j].name
                        && dl[m].size == rest[j].size;
                assert(es[m].name == rest[j].name);
                assert(es[m].name != es[es.len() - 1].name);
            }
        }
    }
}

} // verus!
