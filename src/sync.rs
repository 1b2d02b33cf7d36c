//! The policy that decides which file modification times are rewritten.
use vstd::prelude::*;
use crate::correlate::{res_paths, Resolution};

verus! {

/// A file whose mtime is `file_mtime` is set to `commit_time` when it is
/// newer than its history, or older unless older files are ignored.
pub open spec fn spec_needs_reset(file_mtime: i64, commit_time: i64, ignore_older: bool) -> bool {
    file_mtime > commit_time || (!ignore_older && file_mtime < commit_time)
}

/// Whether a file with modification time `file_mtime` is rewritten to the
/// time of the commit it was attributed to.
pub fn needs_reset(file_mtime: i64, commit_time: i64, ignore_older: bool) -> (r: bool)
    ensures
        r == spec_needs_reset(file_mtime, commit_time, ignore_older),
        file_mtime == commit_time ==> !r,
{
    file_mtime > commit_time || (!ignore_older && file_mtime < commit_time)
}

/// The resolutions whose file is rewritten, in order, where `mtimes[i]` is
/// the current modification time of the file of `res[i]`.
pub open spec fn planned(res: Seq<Resolution>, mtimes: Seq<i64>, ignore_older: bool) -> Seq<Resolution>
    decreases res.len(),
{
    if res.len() == 0 || mtimes.len() != res.len() {
        Seq::empty()
    } else {
        let rest = planned(res.drop_last(), mtimes.drop_last(), ignore_older);
        if spec_needs_reset(mtimes.last(), res.last().time, ignore_older) {
            rest.push(res.last())
        } else {
            rest
        }
    }
}

/// The modification times after the planned files were rewritten.
pub open spec fn mtimes_after(res: Seq<Resolution>, mtimes: Seq<i64>, ignore_older: bool) -> Seq<i64> {
    Seq::new(
        mtimes.len(),
        |i: int|
            if spec_needs_reset(mtimes[i], res[i].time, ignore_older) {
                res[i].time
            } else {
                mtimes[i]
            },
    )
}

/// The paths of a list of resolutions.
pub open spec fn paths_of(res: Seq<Resolution>) -> Set<Seq<char>> {
    Set::new(|p: Seq<char>| exists|i: int| 0 <= i < res.len() && #[trigger] res[i].path@ == p)
}

/// Selects the resolutions whose file needs its modification time rewritten,
/// where `mtimes[i]` is the current modification time of the file of `res[i]`.
pub fn plan_resets(res: &Vec<Resolution>, mtimes: &Vec<i64>, ignore_older: bool) -> (r: Vec<Resolution>)
    requires
        res.len() == mtimes.len(),
    ensures
        r@ == planned(res@, mtimes@, ignore_older),
{
    let mut r: Vec<Resolution> = Vec::new();
    let mut i: usize = 0;
    while i < res.len()
        invariant
            i <= res.len(),
            res.len() == mtimes.len(),
            r@ == planned(res@.subrange(0, i as int), mtimes@.subrange(0, i as int), ignore_older),
        decreases res.len() - i,
    {
        let ghost pre_r = res@.subrange(0, i as int);
        let ghost pre_m = mtimes@.subrange(0, i as int);
        proof {
            assert(res@.subrange(0, i + 1).drop_last() =~= pre_r);
            assert(mtimes@.subrange(0, i + 1).drop_last() =~= pre_m);
        }
        if needs_reset(mtimes[i], res[i].time, ignore_older) {
            r.push(Resolution { path: res[i].path.clone(), time: res[i].time });
        }
        i = i + 1;
    }
    assert(res@.subrange(0, i as int) =~= res@);
    assert(mtimes@.subrange(0, i as int) =~= mtimes@);
    r
}

/// Every planned resolution is one of `res` whose file needs rewriting.
proof fn lemma_planned_from(res: Seq<Resolution>, mtimes: Seq<i64>, ignore_older: bool)
    requires
        res.len() == mtimes.len(),
    ensures
        forall|k: int|
            0 <= k < planned(res, mtimes, ignore_older).len() ==> exists|j: int|
                0 <= j < res.len() && #[trigger] planned(res, mtimes, ignore_older)[k] == res[j]
                    && spec_needs_reset(mtimes[j], res[j].time, ignore_older),
    decreases res.len(),
{
    if res.len() > 0 {
        let (r0, m0) = (res.drop_last(), mtimes.drop_last());
        lemma_planned_from(r0, m0, ignore_older);
        let p = planned(res, mtimes, ignore_older);
        assert forall|k: int| 0 <= k < p.len() implies exists|j: int|
            0 <= j < res.len() && #[trigger] p[k] == res[j] && spec_needs_reset(
                mtimes[j],
                res[j].time,
                ignore_older,
            ) by {
            if k < planned(r0, m0, ignore_older).len() {
                let j = choose|j: int|
                    0 <= j < r0.len() && planned(r0, m0, ignore_older)[k] == r0[j]
                        && spec_needs_reset(m0[j], r0[j].time, ignore_older);
                assert(res[j] == r0[j]);
            } else {
                assert(p[k] == res[res.len() - 1]);
            }
        }
    }
}

/// Running the synchronisation again on the modification times that the
/// first run left rewrites nothing: every file either already had, or was
/// given, the time that its attribution asks for.
pub proof fn lemma_second_run_touches_nothing(res: Seq<Resolution>, mtimes: Seq<i64>, ignore_older: bool)
    requires
        res.len() == mtimes.len(),
    ensures
        planned(res, mtimes_after(res, mtimes, ignore_older), ignore_older).len() == 0,
{
    let after = mtimes_after(res, mtimes, ignore_older);
    let p = planned(res, after, ignore_older);
    lemma_planned_from(res, after, ignore_older);
    if p.len() > 0 {
        let j = choose|j: int|
            0 <= j < res.len() && p[0] == res[j] && spec_needs_reset(
                after[j],
                res[j].time,
                ignore_older,
            );
        assert(!spec_needs_reset(after[j], res[j].time, ignore_older));
    }
}

/// A file that the policy leaves alone is not among the touched files
/// (each path attributed once).
proof fn lemma_kept_untouched(res: Seq<Resolution>, mtimes: Seq<i64>, ignore_older: bool, i: int)
    requires
        res.len() == mtimes.len(),
        0 <= i < res.len(),
        !spec_needs_reset(mtimes[i], res[i].time, ignore_older),
        res_paths(res).no_duplicates(),
    ensures
        !paths_of(planned(res, mtimes, ignore_older)).contains(res[i].path@),
{
    let p = planned(res, mtimes, ignore_older);
    lemma_planned_from(res, mtimes, ignore_older);
    if paths_of(p).contains(res[i].path@) {
        let k = choose|k: int| 0 <= k < p.len() && #[trigger] p[k].path@ == res[i].path@;
        let j = choose|j: int|
            0 <= j < res.len() && p[k] == res[j] && spec_needs_reset(
                mtimes[j],
                res[j].time,
                ignore_older,
            );
        assert(res_paths(res)[j] == res_paths(res)[i]);
        assert(j == i);
    }
}

/// A file whose modification time already equals the time of the commit it
/// is attributed to is never among the touched files (each path attributed once).
pub proof fn lemma_equal_time_untouched(
    res: Seq<Resolution>,
    mtimes: Seq<i64>,
    ignore_older: bool,
    i: int,
)
    requires
        res.len() == mtimes.len(),
        0 <= i < res.len(),
        mtimes[i] == res[i].time,
        res_paths(res).no_duplicates(),
    ensures
        !paths_of(planned(res, mtimes, ignore_older)).contains(res[i].path@),
        mtimes_after(res, mtimes, ignore_older)[i] == mtimes[i],
{
    lemma_kept_untouched(res, mtimes, ignore_older, i);
}

/// With older files ignored, a file whose modification time is older than
/// the time of the commit it is attributed to is never among the touched
/// files, so its time stays as it was (each path attributed once).
pub proof fn lemma_older_untouched_when_ignored(res: Seq<Resolution>, mtimes: Seq<i64>, i: int)
    requires
        res.len() == mtimes.len(),
        0 <= i < res.len(),
        mtimes[i] < res[i].time,
        res_paths(res).no_duplicates(),
    ensures
        !paths_of(planned(res, mtimes, true)).contains(res[i].path@),
        mtimes_after(res, mtimes, true)[i] == mtimes[i],
{
    lemma_kept_untouched(res, mtimes, true, i);
}

} // verus!
