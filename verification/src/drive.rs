//! The search for the USB drive: the directory that holds `apps.json`.
use vstd::prelude::*;

use crate::catalog::Platform;
use crate::scan::join_path;
use crate::text::{opt_str, path_below};

verus! {

/// A place where the drive may be.
#[derive(Debug)]
pub enum Probe {
    /// The directory that many levels above the executable.
    ExeAncestor(u8),
    /// The entries of a directory.
    Entries(String),
    /// A directory.
    Root(String),
}

#[verifier::ext_equal]
pub enum ProbeModel {
    ExeAncestor(u8),
    Entries(Seq<char>),
    Root(Seq<char>),
}

impl View for Probe {
    type V = ProbeModel;

    open spec fn view(&self) -> ProbeModel {
        match *self {
            Probe::ExeAncestor(n) => ProbeModel::ExeAncestor(n),
            Probe::Entries(dir) => ProbeModel::Entries(dir@),
            Probe::Root(dir) => ProbeModel::Root(dir@),
        }
    }
}

/// The models of a list of probes.
pub open spec fn probe_models(probes: Seq<Probe>) -> Seq<ProbeModel> {
    probes.map_values(|p: Probe| p@)
}

/// The directory of the executable and the three above it.
pub open spec fn exe_probes() -> Seq<ProbeModel> {
    seq![
        ProbeModel::ExeAncestor(1),
        ProbeModel::ExeAncestor(2),
        ProbeModel::ExeAncestor(3),
        ProbeModel::ExeAncestor(4),
    ]
}

/// Where drives are mounted below `base`: in the directory of the user, where
/// the user is known, and in `base` itself.
pub open spec fn mount_probes(base: Seq<char>, user: Option<Seq<char>>) -> Seq<ProbeModel> {
    match user {
        Some(user) => seq![
            ProbeModel::Entries(path_below(base, user)),
            ProbeModel::Entries(base),
        ],
        None => seq![ProbeModel::Entries(base)],
    }
}

/// The root of the drive with the letter that many behind `D`.
pub open spec fn drive_root(i: int) -> Seq<char> {
    seq![(68 + i) as char, ':', '\\']
}

/// Where the drive is looked for, in this order: above the executable, and then
/// on Linux in the directories for mounted drives, on Windows under the letters
/// D to Z.
pub open spec fn all_probes(platform: Platform, exe_known: bool, user: Option<Seq<char>>) -> Seq<
    ProbeModel,
> {
    (if exe_known {
        exe_probes()
    } else {
        Seq::empty()
    }) + match platform {
        Platform::Linux => mount_probes("/media"@, user) + mount_probes("/run/media"@, user)
            + mount_probes("/mnt"@, user),
        Platform::Windows => Seq::new(23, |i: int| ProbeModel::Root(drive_root(i))),
        Platform::Unix => Seq::empty(),
    }
}

/// A search. `next` is the probe to make; once the drive is found, it is the
/// probe that found it, and `found` is the entry at which it did.
#[derive(Debug)]
pub struct DriveSearch {
    pub probes: Vec<Probe>,
    pub next: usize,
    pub found: Option<usize>,
}

#[verifier::ext_equal]
pub struct SearchModel {
    pub probes: Seq<ProbeModel>,
    pub next: int,
    pub found: Option<int>,
}

impl View for DriveSearch {
    type V = SearchModel;

    open spec fn view(&self) -> SearchModel {
        SearchModel {
            probes: probe_models(self.probes@),
            next: self.next as int,
            found: match self.found {
                Some(i) => Some(i as int),
                None => None,
            },
        }
    }
}

/// A probe is still to be made.
pub open spec fn is_open(s: SearchModel) -> bool {
    s.found is None && 0 <= s.next < s.probes.len()
}

/// The first entry that holds the catalogue, or the number of entries.
pub open spec fn first_hit(hits: Seq<bool>) -> int
    decreases hits.len(),
{
    if hits.len() == 0 || hits[0] {
        0
    } else {
        1 + first_hit(hits.skip(1))
    }
}

/// The search after its probe: `hits` tells for each entry that was looked at
/// whether it holds the catalogue.
pub open spec fn after_probe(s: SearchModel, hits: Seq<bool>) -> SearchModel {
    if first_hit(hits) < hits.len() {
        SearchModel { found: Some(first_hit(hits)), ..s }
    } else {
        SearchModel { next: s.next + 1, ..s }
    }
}

fn push_mount_probes(out: &mut Vec<Probe>, base: &str, user: Option<&str>)
    ensures
        probe_models(final(out)@) == probe_models(old(out)@) + mount_probes(base@, opt_str(user)),
{
    let ghost before = probe_models(out@);
    if let Some(user) = user {
        out.push(Probe::Entries(join_path(base, user)));
    }
    out.push(Probe::Entries(base.to_owned()));
    assert(probe_models(out@) =~= before + mount_probes(base@, opt_str(user)));
}

/// Begins the search. `exe_known` tells whether the path of the executable is
/// known, `user` is the name of the user, where it is known.
pub fn find_usb_root(platform: Platform, exe_known: bool, user: Option<&str>) -> (r: DriveSearch)
    ensures
        r@ == (SearchModel {
            probes: all_probes(platform, exe_known, opt_str(user)),
            next: 0,
            found: None,
        }),
{
    let mut probes: Vec<Probe> = Vec::new();
    if exe_known {
        probes.push(Probe::ExeAncestor(1));
        probes.push(Probe::ExeAncestor(2));
        probes.push(Probe::ExeAncestor(3));
        probes.push(Probe::ExeAncestor(4));
    }
    let ghost exe = if exe_known {
        exe_probes()
    } else {
        Seq::empty()
    };
    assert(probe_models(probes@) =~= exe);
    match platform {
        Platform::Linux => {
            push_mount_probes(&mut probes, "/media", user);
            push_mount_probes(&mut probes, "/run/media", user);
            push_mount_probes(&mut probes, "/mnt", user);
        },
        Platform::Windows => {
            let mut i: u8 = 0;
            while i < 23
                invariant
                    i <= 23,
                    probe_models(probes@) == exe + Seq::new(
                        i as nat,
                        |j: int| ProbeModel::Root(drive_root(j)),
                    ),
                decreases 23 - i,
            {
                let ghost before = probe_models(probes@);
                let mut root = String::new();
                root.push((68 + i) as char);
                root.push(':');
                root.push('\\');
                assert(root@ =~= drive_root(i as int));
                probes.push(Probe::Root(root));
                assert(probe_models(probes@) =~= before.push(
                    ProbeModel::Root(drive_root(i as int)),
                ));
                i += 1;
                assert(probe_models(probes@) =~= exe + Seq::new(
                    i as nat,
                    |j: int| ProbeModel::Root(drive_root(j)),
                ));
            }
        },
        Platform::Unix => {},
    }
    let r = DriveSearch { probes, next: 0, found: None };
    assert(r@.probes =~= all_probes(platform, exe_known, opt_str(user)));
    r
}

/// The first entry that holds the catalogue, or the number of entries.
pub fn first_present(hits: &Vec<bool>) -> (r: usize)
    ensures
        r == first_hit(hits@),
        r <= hits@.len(),
{
    let mut i: usize = 0;
    while i < hits.len() && !hits[i]
        invariant
            i <= hits@.len(),
            forall|j: int| 0 <= j < i ==> !hits@[j],
        decreases hits@.len() - i,
    {
        i += 1;
    }
    proof {
        lemma_first_hit(hits@, i as int);
    }
    i
}

/// A position before which nothing is hit, and at which something is unless it
/// is the end, is that of the first hit.
proof fn lemma_first_hit(hits: Seq<bool>, k: int)
    requires
        0 <= k <= hits.len(),
        forall|j: int| 0 <= j < k ==> !hits[j],
        k < hits.len() ==> hits[k],
    ensures
        first_hit(hits) == k,
    decreases k,
{
    if k > 0 {
        let t = hits.skip(1);
        assert forall|j: int| 0 <= j < k - 1 implies !t[j] by {
            assert(t[j] == hits[j + 1]);
        }
        lemma_first_hit(t, k - 1);
    }
}

/// `first_hit` is the first hit, or the number of entries where there is none.
proof fn lemma_first_hit_bounds(hits: Seq<bool>)
    ensures
        0 <= first_hit(hits) <= hits.len(),
        first_hit(hits) < hits.len() ==> hits[first_hit(hits)],
        forall|j: int| 0 <= j < first_hit(hits) ==> !hits[j],
    decreases hits.len(),
{
    if hits.len() > 0 && !hits[0] {
        let t = hits.skip(1);
        lemma_first_hit_bounds(t);
        assert forall|j: int| 0 <= j < first_hit(hits) implies !hits[j] by {
            if j > 0 {
                assert(t[j - 1] == hits[j]);
            }
        }
    }
}

impl DriveSearch {
    /// The probe to make, or none once the drive is found or there is no place
    /// left.
    pub fn current(&self) -> (r: Option<&Probe>)
        ensures
            is_open(self@) ==> r is Some && r->0@ == self@.probes[self@.next],
            !is_open(self@) ==> r is None,
    {
        if self.found.is_none() && self.next < self.probes.len() {
            assert(self@.probes[self@.next] == self.probes@[self.next as int]@);
            Some(&self.probes[self.next])
        } else {
            None
        }
    }

    /// Takes the answer to the probe: for each entry that was looked at,
    /// whether it holds the catalogue.
    pub fn report(&mut self, hits: &Vec<bool>)
        requires
            is_open(old(self)@),
        ensures
            final(self)@ == after_probe(old(self)@, hits@),
    {
        let i: usize = first_present(hits);
        let count: usize = self.probes.len();
        assert(self.next < count);
        if i < hits.len() {
            self.found = Some(i);
        } else {
            self.next += 1;
        }
    }

    /// The probe and the entry at which the drive was found.
    pub fn result(&self) -> (r: Option<(usize, usize)>)
        ensures
            match self@.found {
                Some(i) => r matches Some((probe, entry)) && probe == self@.next && entry == i,
                None => r is None,
            },
    {
        match self.found {
            Some(i) => Some((self.next, i)),
            None => None,
        }
    }
}

/// A search carried to its end, where the probes would be answered by
/// `answers`, one answer for each probe.
pub open spec fn searched(s: SearchModel, answers: Seq<Seq<bool>>) -> SearchModel
    decreases s.probes.len() - s.next,
{
    if is_open(s) {
        if first_hit(answers[s.next]) < answers[s.next].len() {
            after_probe(s, answers[s.next])
        } else {
            searched(after_probe(s, answers[s.next]), answers)
        }
    } else {
        s
    }
}

/// The drive that a search finds is the first that there is: no entry of an
/// earlier probe, and no earlier entry of the same probe, holds the catalogue.
/// Where none is found, no entry of any probe holds it.
pub proof fn law_search_finds_the_first(s: SearchModel, answers: Seq<Seq<bool>>)
    requires
        s.found is None,
        0 <= s.next <= s.probes.len(),
        answers.len() == s.probes.len(),
        forall|p: int, j: int|
            0 <= p < s.next && 0 <= j < answers[p].len() ==> !#[trigger] answers[p][j],
    ensures
        ({
            let end = searched(s, answers);
            match end.found {
                Some(k) => {
                    &&& 0 <= end.next < answers.len()
                    &&& 0 <= k < answers[end.next].len()
                    &&& answers[end.next][k]
                    &&& forall|j: int| 0 <= j < k ==> !answers[end.next][j]
                    &&& forall|p: int, j: int|
                        0 <= p < end.next && 0 <= j < answers[p].len()
                            ==> !#[trigger] answers[p][j]
                },
                None => forall|p: int, j: int|
                    0 <= p < answers.len() && 0 <= j < answers[p].len()
                        ==> !#[trigger] answers[p][j],
            }
        }),
    decreases s.probes.len() - s.next,
{
    if is_open(s) {
        lemma_first_hit_bounds(answers[s.next]);
        if first_hit(answers[s.next]) >= answers[s.next].len() {
            law_search_finds_the_first(after_probe(s, answers[s.next]), answers);
        }
    }
}

} // verus!
