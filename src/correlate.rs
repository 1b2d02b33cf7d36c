//! Rename-aware correlation of candidate files with the commits that last
//! introduced their current content at their current path.
use vstd::prelude::*;

verus! {

/// A file still waiting for its origin commit: the fingerprint of its
/// content in the head tree and its path.
#[derive(Debug)]
pub struct Candidate {
    pub id: String,
    pub path: String,
}

/// The new side of one changed entry in a commit's diff against its first
/// parent. `new_path` is absent where the diff library reports no path.
#[derive(Debug)]
pub struct Delta {
    pub new_id: String,
    pub new_path: Option<String>,
}

/// What one commit of the first-parent history contributes: its time in
/// seconds and the deltas of its diff against its first parent.
#[derive(Debug)]
pub struct CommitChanges {
    pub time: i64,
    pub deltas: Vec<Delta>,
}

/// A candidate attributed to a commit: its path and that commit's time.
#[derive(Debug)]
pub struct Resolution {
    pub path: String,
    pub time: i64,
}

impl Candidate {
    pub fn new(id: String, path: String) -> (r: Candidate)
        ensures
            r.id@ == id@,
            r.path@ == path@,
    {
        Candidate { id, path }
    }

    pub fn duplicate(&self) -> (r: Candidate)
        ensures
            r == *self,
    {
        Candidate { id: self.id.clone(), path: self.path.clone() }
    }
}

impl Delta {
    pub fn new(new_id: String, new_path: Option<String>) -> (r: Delta)
        ensures
            r.new_id == new_id,
            r.new_path == new_path,
    {
        Delta { new_id, new_path }
    }
}

impl CommitChanges {
    pub fn new(time: i64, deltas: Vec<Delta>) -> (r: CommitChanges)
        ensures
            r.time == time,
            r.deltas@ == deltas@,
    {
        CommitChanges { time, deltas }
    }
}

/// The delta adds or changes exactly this content at exactly this path.
pub open spec fn delta_matches(d: Delta, id: Seq<char>, path: Seq<char>) -> bool {
    match d.new_path {
        Some(p) => d.new_id@ == id && p@ == path,
        None => false,
    }
}

/// Some delta of the diff matches the candidate on its new side.
pub open spec fn affects(deltas: Seq<Delta>, c: Candidate) -> bool {
    exists|i: int| 0 <= i < deltas.len() && #[trigger] delta_matches(deltas[i], c.id@, c.path@)
}

/// The candidates that one diff leaves unresolved, in their order.
pub open spec fn unmatched(cands: Seq<Candidate>, deltas: Seq<Delta>) -> Seq<Candidate>
    decreases cands.len(),
{
    if cands.len() == 0 {
        Seq::empty()
    } else {
        let rest = unmatched(cands.drop_last(), deltas);
        if affects(deltas, cands.last()) {
            rest
        } else {
            rest.push(cands.last())
        }
    }
}

/// The candidates that one diff resolves, each with the commit's time.
pub open spec fn matched_at(cands: Seq<Candidate>, deltas: Seq<Delta>, time: i64) -> Seq<Resolution>
    decreases cands.len(),
{
    if cands.len() == 0 {
        Seq::empty()
    } else {
        let rest = matched_at(cands.drop_last(), deltas, time);
        if affects(deltas, cands.last()) {
            rest.push(Resolution { path: cands.last().path, time })
        } else {
            rest
        }
    }
}

/// The candidates still unresolved after the given commits, newest first.
pub open spec fn pending_after(cands: Seq<Candidate>, history: Seq<CommitChanges>) -> Seq<Candidate>
    decreases history.len(),
{
    if history.len() == 0 {
        cands
    } else {
        unmatched(pending_after(cands, history.drop_last()), history.last().deltas@)
    }
}

/// Every resolution made while walking the given commits, newest first.
pub open spec fn resolutions(cands: Seq<Candidate>, history: Seq<CommitChanges>) -> Seq<Resolution>
    decreases history.len(),
{
    if history.len() == 0 {
        Seq::empty()
    } else {
        let before = history.drop_last();
        resolutions(cands, before) + matched_at(
            pending_after(cands, before),
            history.last().deltas@,
            history.last().time,
        )
    }
}

/// Whether some delta of `diff` carries the content `id` at `path` on its new side.
pub fn diff_affects_oid(diff: &Vec<Delta>, id: &String, path: &String) -> (r: bool)
    ensures
        r == affects(diff@, Candidate { id: *id, path: *path }),
{
    let mut i: usize = 0;
    while i < diff.len()
        invariant
            i <= diff.len(),
            forall|j: int| 0 <= j < i ==> !delta_matches(#[trigger] diff@[j], id@, path@),
        decreases diff.len() - i,
    {
        let d = &diff[i];
        match &d.new_path {
            Some(p) => {
                if d.new_id == *id && *p == *path {
                    let ghost c = Candidate { id: *id, path: *path };
                    assert(delta_matches(diff@[i as int], c.id@, c.path@));
                    return true;
                }
            },
            None => {},
        }
        i = i + 1;
    }
    false
}

proof fn lemma_unmatched_push(cands: Seq<Candidate>, c: Candidate, deltas: Seq<Delta>, time: i64)
    ensures
        unmatched(cands.push(c), deltas) == if affects(deltas, c) {
            unmatched(cands, deltas)
        } else {
            unmatched(cands, deltas).push(c)
        },
        matched_at(cands.push(c), deltas, time) == if affects(deltas, c) {
            matched_at(cands, deltas, time).push(Resolution { path: c.path, time })
        } else {
            matched_at(cands, deltas, time)
        },
{
    assert(cands.push(c).drop_last() =~= cands);
}

/// Resolves at one commit: every pending candidate that the commit's diff
/// affects moves to `resolved` with the commit's time, in order; the others
/// stay pending, in order.
pub fn resolve_commit(
    pending: &mut Vec<Candidate>,
    deltas: &Vec<Delta>,
    time: i64,
    resolved: &mut Vec<Resolution>,
)
    ensures
        final(pending)@ == unmatched(old(pending)@, deltas@),
        final(resolved)@ == old(resolved)@ + matched_at(old(pending)@, deltas@, time),
{
    let ghost start = pending@;
    let ghost done = resolved@;
    let mut kept: Vec<Candidate> = Vec::new();
    let mut i: usize = 0;
    while i < pending.len()
        invariant
            pending@ == start,
            i <= pending.len(),
            kept@ == unmatched(start.subrange(0, i as int), deltas@),
            resolved@ == done + matched_at(start.subrange(0, i as int), deltas@, time),
        decreases pending.len() - i,
    {
        let c = pending[i].duplicate();
        proof {
            lemma_unmatched_push(start.subrange(0, i as int), c, deltas@, time);
            assert(start.subrange(0, i as int).push(c) =~= start.subrange(0, i + 1));
        }
        if diff_affects_oid(deltas, &c.id, &c.path) {
            resolved.push(Resolution { path: c.path, time });
            assert(resolved@ =~= done + matched_at(start.subrange(0, i + 1), deltas@, time));
        } else {
            kept.push(c);
        }
        i = i + 1;
    }
    assert(start.subrange(0, start.len() as int) =~= start);
    *pending = kept;
}

/// Walks `history` (newest first) and attributes each candidate to the first
/// commit whose diff affects it; the walk stops once nothing is pending.
pub fn correlate(cands: Vec<Candidate>, history: &Vec<CommitChanges>) -> (r: Vec<Resolution>)
    ensures
        r@ == resolutions(cands@, history@),
{
    let mut pending = cands;
    let mut resolved: Vec<Resolution> = Vec::new();
    let mut k: usize = 0;
    while k < history.len() && pending.len() > 0
        invariant
            k <= history.len(),
            pending@ == pending_after(cands@, history@.subrange(0, k as int)),
            resolved@ == resolutions(cands@, history@.subrange(0, k as int)),
        decreases history.len() - k,
    {
        let ghost before = history@.subrange(0, k as int);
        let commit = &history[k];
        resolve_commit(&mut pending, &commit.deltas, commit.time, &mut resolved);
        proof {
            let next = history@.subrange(0, k + 1);
            assert(next.drop_last() =~= before);
        }
        k = k + 1;
    }
    proof {
        if k < history.len() {
            lemma_nothing_pending(cands@, history@, k as int);
        }
        assert(history@.subrange(0, history.len() as int) =~= history@);
    }
    resolved
}

proof fn lemma_unmatched_empty(deltas: Seq<Delta>, time: i64)
    ensures
        unmatched(Seq::empty(), deltas) == Seq::<Candidate>::empty(),
        matched_at(Seq::empty(), deltas, time) == Seq::<Resolution>::empty(),
{
}

/// Once nothing is pending, older commits resolve nothing more.
proof fn lemma_nothing_pending(cands: Seq<Candidate>, history: Seq<CommitChanges>, k: int)
    requires
        0 <= k <= history.len(),
        pending_after(cands, history.subrange(0, k)).len() == 0,
    ensures
        resolutions(cands, history) == resolutions(cands, history.subrange(0, k)),
        pending_after(cands, history).len() == 0,
    decreases history.len() - k,
{
    if k < history.len() {
        let pre = history.subrange(0, k);
        let next = history.subrange(0, k + 1);
        assert(next.drop_last() =~= pre);
        assert(pending_after(cands, pre) =~= Seq::<Candidate>::empty());
        lemma_unmatched_empty(history[k].deltas@, history[k].time);
        assert(resolutions(cands, next) =~= resolutions(cands, pre));
        lemma_nothing_pending(cands, history, k + 1);
    } else {
        assert(history.subrange(0, k) =~= history);
    }
}

proof fn lemma_unmatched_contains(cands: Seq<Candidate>, deltas: Seq<Delta>, x: Candidate)
    ensures
        unmatched(cands, deltas).contains(x) <==> cands.contains(x) && !affects(deltas, x),
    decreases cands.len(),
{
    if cands.len() > 0 {
        let pre = cands.drop_last();
        lemma_unmatched_contains(pre, deltas, x);
        assert(cands =~= pre.push(cands.last()));
        broadcast use vstd::seq_lib::lemma_seq_contains_after_push;
    }
}

proof fn lemma_matched_at_contains(cands: Seq<Candidate>, deltas: Seq<Delta>, time: i64, x: Candidate)
    requires
        cands.contains(x),
        affects(deltas, x),
    ensures
        matched_at(cands, deltas, time).contains(Resolution { path: x.path, time }),
    decreases cands.len(),
{
    let pre = cands.drop_last();
    assert(cands =~= pre.push(cands.last()));
    broadcast use vstd::seq_lib::lemma_seq_contains_after_push;
    if cands.last() != x {
        lemma_matched_at_contains(pre, deltas, time, x);
    }
}

/// A candidate stays pending exactly as long as no commit walked so far
/// adds its content at its path.
pub proof fn lemma_pending_until_matched(cands: Seq<Candidate>, history: Seq<CommitChanges>, x: Candidate)
    ensures
        pending_after(cands, history).contains(x) <==> cands.contains(x) && forall|j: int|
            0 <= j < history.len() ==> !affects(#[trigger] history[j].deltas@, x),
    decreases history.len(),
{
    if history.len() > 0 {
        let pre = history.drop_last();
        lemma_pending_until_matched(cands, pre, x);
        lemma_unmatched_contains(pending_after(cands, pre), history.last().deltas@, x);
        if cands.contains(x) && forall|j: int| 0 <= j < pre.len() ==> !affects(#[trigger] pre[j].deltas@, x) {
            if !affects(history.last().deltas@, x) {
                assert forall|j: int| 0 <= j < history.len() implies !affects(#[trigger] history[j].deltas@, x) by {
                    if j < pre.len() {
                        assert(history[j] == pre[j]);
                    }
                }
            }
        } else if cands.contains(x) {
            let j = choose|j: int| 0 <= j < pre.len() && affects(#[trigger] pre[j].deltas@, x);
            assert(history[j] == pre[j]);
        }
    }
}

/// Each candidate is attributed to the newest commit whose diff adds its
/// current content at its current path: once walked, the first such commit
/// of the newest-first history gives it that commit's time.
pub proof fn lemma_newest_match_wins(
    cands: Seq<Candidate>,
    history: Seq<CommitChanges>,
    x: Candidate,
    k: int,
)
    requires
        cands.contains(x),
        0 <= k < history.len(),
        affects(history[k].deltas@, x),
        forall|j: int| 0 <= j < k ==> !affects(#[trigger] history[j].deltas@, x),
    ensures
        resolutions(cands, history).contains(Resolution { path: x.path, time: history[k].time }),
    decreases history.len(),
{
    let pre = history.drop_last();
    let want = Resolution { path: x.path, time: history[k].time };
    let last = matched_at(pending_after(cands, pre), history.last().deltas@, history.last().time);
    if k == history.len() - 1 {
        lemma_pending_until_matched(cands, pre, x);
        assert forall|j: int| 0 <= j < pre.len() implies !affects(#[trigger] pre[j].deltas@, x) by {
            assert(pre[j] == history[j]);
        }
        lemma_matched_at_contains(pending_after(cands, pre), history.last().deltas@, history.last().time, x);
        let i = choose|i: int| 0 <= i < last.len() && last[i] == want;
        assert((resolutions(cands, pre) + last)[resolutions(cands, pre).len() + i] == want);
    } else {
        assert forall|j: int| 0 <= j < k implies !affects(#[trigger] pre[j].deltas@, x) by {
            assert(pre[j] == history[j]);
        }
        assert(pre[k] == history[k]);
        lemma_newest_match_wins(cands, pre, x, k);
        let i = choose|i: int| 0 <= i < resolutions(cands, pre).len() && resolutions(cands, pre)[i] == want;
        assert((resolutions(cands, pre) + last)[i] == want);
    }
}

/// A candidate that no commit matches is never attributed: it is still
/// pending once the whole history has been walked.
pub proof fn lemma_unmatched_stays_pending(cands: Seq<Candidate>, history: Seq<CommitChanges>, x: Candidate)
    requires
        cands.contains(x),
        forall|j: int| 0 <= j < history.len() ==> !affects(#[trigger] history[j].deltas@, x),
    ensures
        pending_after(cands, history).contains(x),
{
    lemma_pending_until_matched(cands, history, x);
}

/// The paths of a list of candidates.
pub open spec fn cand_paths(c: Seq<Candidate>) -> Seq<Seq<char>> {
    c.map_values(|x: Candidate| x.path@)
}

/// The paths of a list of resolutions.
pub open spec fn res_paths(r: Seq<Resolution>) -> Seq<Seq<char>> {
    r.map_values(|x: Resolution| x.path@)
}

proof fn lemma_split_paths(c: Seq<Candidate>, d: Seq<Delta>, t: i64)
    requires
        cand_paths(c).no_duplicates(),
    ensures
        forall|p: Seq<char>| res_paths(matched_at(c, d, t)).contains(p) ==> cand_paths(c).contains(p),
        forall|p: Seq<char>| cand_paths(unmatched(c, d)).contains(p) ==> cand_paths(c).contains(p),
        res_paths(matched_at(c, d, t)).no_duplicates(),
        cand_paths(unmatched(c, d)).no_duplicates(),
        res_paths(matched_at(c, d, t)).disjoint(cand_paths(unmatched(c, d))),
    decreases c.len(),
{
    if c.len() > 0 {
        let pre = c.drop_last();
        let x = c.last();
        assert(cand_paths(c) =~= cand_paths(pre).push(x.path@));
        assert(cand_paths(pre).no_duplicates()) by {
            assert forall|i: int, j: int|
                0 <= i < cand_paths(pre).len() && 0 <= j < cand_paths(pre).len() && i != j implies cand_paths(pre)[i]
                != cand_paths(pre)[j] by {
                assert(cand_paths(pre)[i] == cand_paths(c)[i]);
                assert(cand_paths(pre)[j] == cand_paths(c)[j]);
            }
        }
        lemma_split_paths(pre, d, t);
        let m = matched_at(pre, d, t);
        let u = unmatched(pre, d);
        assert(!cand_paths(pre).contains(x.path@)) by {
            if cand_paths(pre).contains(x.path@) {
                let k = choose|k: int| 0 <= k < cand_paths(pre).len() && cand_paths(pre)[k] == x.path@;
                assert(cand_paths(c)[k] == cand_paths(c)[c.len() - 1]);
            }
        }
        broadcast use vstd::seq_lib::lemma_seq_contains_after_push;
        if affects(d, x) {
            assert(res_paths(matched_at(c, d, t)) =~= res_paths(m).push(x.path@));
            assert(unmatched(c, d) == u);
        } else {
            assert(cand_paths(unmatched(c, d)) =~= cand_paths(u).push(x.path@));
            assert(matched_at(c, d, t) == m);
        }
    }
}

/// Each candidate is attributed at most once, and only candidates are: where
/// the candidates' paths are distinct, so are the paths of the resolutions,
/// each of which is a candidate's path.
pub proof fn lemma_resolved_paths_distinct(cands: Seq<Candidate>, history: Seq<CommitChanges>)
    requires
        cand_paths(cands).no_duplicates(),
    ensures
        res_paths(resolutions(cands, history)).no_duplicates(),
        forall|p: Seq<char>| res_paths(resolutions(cands, history)).contains(p) ==> cand_paths(cands).contains(p),
        cand_paths(pending_after(cands, history)).no_duplicates(),
        forall|p: Seq<char>| cand_paths(pending_after(cands, history)).contains(p) ==> cand_paths(cands).contains(p),
        res_paths(resolutions(cands, history)).disjoint(cand_paths(pending_after(cands, history))),
    decreases history.len(),
{
    if history.len() == 0 {
        assert(res_paths(resolutions(cands, history)) =~= Seq::<Seq<char>>::empty());
    } else {
        let pre = history.drop_last();
        lemma_resolved_paths_distinct(cands, pre);
        let rp = res_paths(resolutions(cands, pre));
        let pend = pending_after(cands, pre);
        let d = history.last().deltas@;
        let t = history.last().time;
        lemma_split_paths(pend, d, t);
        let m = res_paths(matched_at(pend, d, t));
        let u = cand_paths(unmatched(pend, d));
        assert(res_paths(resolutions(cands, history)) =~= rp + m);
        assert forall|p: Seq<char>| (rp + m).contains(p) implies cand_paths(cands).contains(p) by {
            let k = choose|k: int| 0 <= k < (rp + m).len() && (rp + m)[k] == p;
            if k < rp.len() {
                assert(rp.contains(p));
            } else {
                assert(m[k - rp.len()] == p);
                assert(m.contains(p));
                assert(cand_paths(pend).contains(p));
            }
        }
        assert((rp + m).no_duplicates()) by {
            assert forall|i: int, j: int| 0 <= i < (rp + m).len() && 0 <= j < (rp + m).len() && i != j implies (rp
                + m)[i] != (rp + m)[j] by {
                if i < rp.len() && j >= rp.len() {
                    assert(m.contains(m[j - rp.len()]));
                    assert(cand_paths(pend).contains(m[j - rp.len()]));
                    let k = choose|k: int| 0 <= k < cand_paths(pend).len() && cand_paths(pend)[k] == m[j - rp.len()];
                    assert(rp[i] != cand_paths(pend)[k]);
                } else if j < rp.len() && i >= rp.len() {
                    assert(m.contains(m[i - rp.len()]));
                    assert(cand_paths(pend).contains(m[i - rp.len()]));
                    let k = choose|k: int| 0 <= k < cand_paths(pend).len() && cand_paths(pend)[k] == m[i - rp.len()];
                    assert(rp[j] != cand_paths(pend)[k]);
                }
            }
        }
        assert((rp + m).disjoint(u)) by {
            assert forall|i: int, j: int| 0 <= i < (rp + m).len() && 0 <= j < u.len() implies (rp + m)[i] != u[j] by {
                if i < rp.len() {
                    assert(u.contains(u[j]));
                    assert(cand_paths(pend).contains(u[j]));
                    let k = choose|k: int| 0 <= k < cand_paths(pend).len() && cand_paths(pend)[k] == u[j];
                    assert(rp[i] != cand_paths(pend)[k]);
                } else {
                    assert((rp + m)[i] == m[i - rp.len()]);
                }
            }
        }
        assert forall|p: Seq<char>| u.contains(p) implies cand_paths(cands).contains(p) by {
            assert(cand_paths(pend).contains(p));
        }
    }
}

} // verus!
