//! Where the drive is looked for, and which is found.
use vstd::prelude::*;

use crate::catalog::Platform;
use crate::drive::{
    drive_root, find_usb_root, first_hit, first_present, is_open, DriveSearch, Probe,
    ProbeModel,
};

verus! {

/// How many probes are made above the executable: four where its path is known,
/// and else none.
pub open spec fn above(exe_known: bool) -> int {
    if exe_known {
        4
    } else {
        0
    }
}

proof fn lemma_probe(s: DriveSearch, i: int)
    requires
        0 <= i < s.probes@.len(),
    ensures
        s@.probes[i] == s.probes@[i]@,
        s@.probes.len() == s.probes@.len(),
{
}

/// The drive is first looked for above the executable, where its path is known:
/// one, two, three and four levels up, and nowhere else above it. The search
/// begins with the first probe, and has found nothing yet.
pub proof fn law_above_the_executable(
    platform: Platform,
    exe_known: bool,
    user: Option<&str>,
    r: DriveSearch,
)
    requires
        call_ensures(find_usb_root, (platform, exe_known, user), r),
    ensures
        r.next == 0 && r.found is None,
        r.probes@.len() >= above(exe_known),
        forall|i: int|
            0 <= i < r.probes@.len() ==> ((#[trigger] r.probes@[i]) matches Probe::ExeAncestor(n)
                ==> i < above(exe_known) && n == i + 1),
        forall|i: int| 0 <= i < above(exe_known) ==> (#[trigger] r.probes@[i]) is ExeAncestor,
{
    assert(r@.probes.len() == r.probes@.len());
    assert forall|i: int| 0 <= i < r.probes@.len() implies ((
    #[trigger] r.probes@[i]) matches Probe::ExeAncestor(n) ==> i < above(exe_known) && n == i
        + 1) by {
        lemma_probe(r, i);
    }
    assert forall|i: int| 0 <= i < above(exe_known) implies (
    #[trigger] r.probes@[i]) is ExeAncestor by {
        lemma_probe(r, i);
    }
}

/// On Windows the drives from D to Z are tried, one after the other, behind what
/// is above the executable, whether or not that is known; and no other.
pub proof fn law_letters_from_d_to_z(
    exe_known: bool,
    user: Option<&str>,
    r: DriveSearch,
    c: char,
    i: int,
)
    requires
        call_ensures(find_usb_root, (Platform::Windows, exe_known, user), r),
        'D' <= c <= 'Z',
        0 <= i < r.probes@.len(),
    ensures
        r.probes@.len() == above(exe_known) + ('Z' as int - 'D' as int + 1),
        r.probes@[above(exe_known) + (c as int - 'D' as int)] matches Probe::Root(dir) && dir@
            == seq![c, ':', '\\'],
        i >= above(exe_known) ==> r.probes@[i] is Root,
        r.probes@[i] matches Probe::Root(dir) ==> dir@.len() == 3 && 'D' <= dir@[0] <= 'Z'
            && dir@[1] == ':' && dir@[2] == '\\',
{
    assert(r@.probes.len() == r.probes@.len());
    let k = above(exe_known) + (c as int - 'D' as int);
    lemma_probe(r, k);
    lemma_probe(r, i);
    let d = c as int - 'D' as int;
    assert(r@.probes[k] == ProbeModel::Root(drive_root(d)));
    assert((68 + d) as char == c);
    if i >= above(exe_known) {
        let e = i - above(exe_known);
        assert(r@.probes[i] == ProbeModel::Root(drive_root(e)));
        assert('D' <= (68 + e) as char <= 'Z');
    }
}

/// The probe looks at the entries of that directory.
pub open spec fn looks_into(p: Probe, dir: Seq<char>) -> bool {
    p matches Probe::Entries(d) && d@ == dir
}

/// The directory of a user below another, or the user's name itself where that
/// is an absolute path.
pub open spec fn of_user(base: Seq<char>, user: Seq<char>) -> Seq<char> {
    if user.len() > 0 && user[0] == '/' {
        user
    } else {
        base + seq!['/'] + user
    }
}

/// On Linux the drive is looked for in `/media`, `/run/media` and `/mnt`, in this
/// order: among what is mounted for the user, where that is known, and then
/// among all that is mounted there.
pub proof fn law_mount_points(exe_known: bool, user: Option<&str>, r: DriveSearch)
    requires
        call_ensures(find_usb_root, (Platform::Linux, exe_known, user), r),
    ensures
        user matches Some(u) ==> {
            let k = above(exe_known);
            &&& r.probes@.len() == k + 6
            &&& looks_into(r.probes@[k], of_user("/media"@, u@))
            &&& looks_into(r.probes@[k + 1], "/media"@)
            &&& looks_into(r.probes@[k + 2], of_user("/run/media"@, u@))
            &&& looks_into(r.probes@[k + 3], "/run/media"@)
            &&& looks_into(r.probes@[k + 4], of_user("/mnt"@, u@))
            &&& looks_into(r.probes@[k + 5], "/mnt"@)
        },
        user is None ==> {
            let k = above(exe_known);
            &&& r.probes@.len() == k + 3
            &&& looks_into(r.probes@[k], "/media"@)
            &&& looks_into(r.probes@[k + 1], "/run/media"@)
            &&& looks_into(r.probes@[k + 2], "/mnt"@)
        },
{
    reveal_strlit("/media");
    reveal_strlit("/run/media");
    reveal_strlit("/mnt");
    assert(r@.probes.len() == r.probes@.len());
    let k = above(exe_known);
    lemma_probe(r, k);
    lemma_probe(r, k + 1);
    lemma_probe(r, k + 2);
    if user is Some {
        let u = user->0@;
        lemma_probe(r, k + 3);
        lemma_probe(r, k + 4);
        lemma_probe(r, k + 5);
        assert("/media"@.push('/') + u =~= "/media"@ + seq!['/'] + u);
        assert("/run/media"@.push('/') + u =~= "/run/media"@ + seq!['/'] + u);
        assert("/mnt"@.push('/') + u =~= "/mnt"@ + seq!['/'] + u);
    }
}

/// On another Unix the drive is looked for above the executable alone.
pub proof fn law_nowhere_else(exe_known: bool, user: Option<&str>, r: DriveSearch)
    requires
        call_ensures(find_usb_root, (Platform::Unix, exe_known, user), r),
    ensures
        r.probes@.len() == above(exe_known),
{
    assert(r@.probes.len() == r.probes@.len());
}

/// The first that is present is present, and none before it is; where none is,
/// the number of them is given.
pub proof fn law_first_present(hits: &Vec<bool>, r: usize)
    requires
        call_ensures(first_present, (hits,), r),
    ensures
        r <= hits@.len(),
        r < hits@.len() ==> hits@[r as int],
        forall|j: int| 0 <= j < r ==> !hits@[j],
{
    lemma_first_hit_is_first(hits@);
}

proof fn lemma_first_hit_is_first(hits: Seq<bool>)
    ensures
        0 <= first_hit(hits) <= hits.len(),
        first_hit(hits) < hits.len() ==> hits[first_hit(hits)],
        forall|j: int| 0 <= j < first_hit(hits) ==> !hits[j],
    decreases hits.len(),
{
    if hits.len() > 0 && !hits[0] {
        let t = hits.skip(1);
        lemma_first_hit_is_first(t);
        assert forall|j: int| 0 <= j < first_hit(hits) implies !hits[j] by {
            if j > 0 {
                assert(t[j - 1] == hits[j]);
            }
        }
    }
}

/// Two probes of the same place.
pub open spec fn same_probe(a: Probe, b: Probe) -> bool {
    match (a, b) {
        (Probe::ExeAncestor(x), Probe::ExeAncestor(y)) => x == y,
        (Probe::Entries(x), Probe::Entries(y)) => x@ == y@,
        (Probe::Root(x), Probe::Root(y)) => x@ == y@,
        _ => false,
    }
}

/// A search goes on to its next probe as long as nothing is found, and gives the
/// probe it stands at until it has found the drive or has no probe left.
pub proof fn law_probes_in_turn(s: &DriveSearch, r: Option<&Probe>)
    requires
        call_ensures(DriveSearch::current, (s,), r),
    ensures
        r is Some <==> s.found is None && s.next < s.probes@.len(),
        r matches Some(p) ==> same_probe(*p, s.probes@[s.next as int]),
{
    assert(s@.probes.len() == s.probes@.len());
    assert(is_open(s@) <==> s.found is None && s.next < s.probes@.len());
    if is_open(s@) {
        lemma_probe(*s, s.next as int);
    }
}

/// A probe that hits ends the search at its first hit; one that does not leads
/// to the next probe. The probes stay.
pub proof fn law_answers(s: &mut DriveSearch, hits: &Vec<bool>, first: usize)
    requires
        call_ensures(DriveSearch::report, (s, hits), ()),
        call_ensures(first_present, (hits,), first),
        old(s).found is None,
    ensures
        first < hits@.len() ==> final(s).found == Some(first) && final(s).next == old(s).next,
        first == hits@.len() ==> final(s).found is None && final(s).next == old(s).next + 1,
        final(s).probes@.len() == old(s).probes@.len(),
        forall|i: int|
            0 <= i < old(s).probes@.len() ==> same_probe(
                #[trigger] final(s).probes@[i],
                old(s).probes@[i],
            ),
{
    lemma_first_hit_is_first(hits@);
    assert(final(s)@.probes == old(s)@.probes);
    assert(final(s)@.probes.len() == final(s).probes@.len());
    assert(old(s)@.probes.len() == old(s).probes@.len());
    assert forall|i: int| 0 <= i < old(s).probes@.len() implies same_probe(
        #[trigger] final(s).probes@[i],
        old(s).probes@[i],
    ) by {
        lemma_probe(*final(s), i);
        lemma_probe(*old(s), i);
    }
}

/// The result of a search is the probe and the entry at which it found the
/// drive.
pub proof fn law_results(s: &DriveSearch, r: Option<(usize, usize)>)
    requires
        call_ensures(DriveSearch::result, (s,), r),
    ensures
        r is Some <==> s.found is Some,
        s.found matches Some(i) ==> r == Some((s.next, i)),
{
}

} // verus!
