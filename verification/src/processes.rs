use vstd::prelude::*;
use vstd::set_lib::{lemma_int_range, lemma_len_subset, set_int_range};

use crate::units::{bytes_to_mib, MIB};

verus! {

/// How many processes the report lists.
pub const TOP_PROCESS_COUNT: usize = 10;

/// One running process as read from the machine: its name and resident
/// memory in bytes.
pub struct ProcessSample {
    pub name: String,
    pub memory_bytes: u64,
}

/// One line of the report's process list: where the process stood in the
/// samples it was chosen from, its name and its memory in whole mebibytes.
pub struct TopProcess {
    pub position: usize,
    pub name: String,
    pub memory_mb: u64,
}

/// Memory of the sample at position `i`, in whole mebibytes.
pub open spec fn memory_mb_at(s: Seq<ProcessSample>, i: int) -> int {
    (s[i].memory_bytes / MIB) as int
}

/// The report's order on positions: more memory (in whole mebibytes) first,
/// and among equal amounts the earlier sample first.
pub open spec fn ranks_before(s: Seq<ProcessSample>, i: int, j: int) -> bool {
    ||| memory_mb_at(s, i) > memory_mb_at(s, j)
    ||| memory_mb_at(s, i) == memory_mb_at(s, j) && i < j
}

/// Some line of `top` was taken from position `j`.
pub open spec fn is_listed(top: Seq<TopProcess>, j: int) -> bool {
    exists|k: int| 0 <= k < top.len() && top[k].position == j
}

/// `top` lists, in the report's order, a leading part of all samples in that
/// order: each line copies its sample, and every sample left out comes after
/// every line.
pub open spec fn is_leading_part(s: Seq<ProcessSample>, top: Seq<TopProcess>) -> bool {
    &&& forall|k: int| #![trigger top[k]] 0 <= k < top.len() ==> {
        &&& top[k].position < s.len()
        &&& top[k].name == s[top[k].position as int].name
        &&& top[k].memory_mb == s[top[k].position as int].memory_bytes / MIB
    }
    &&& forall|k: int, l: int|
        0 <= k < l < top.len() ==> ranks_before(s, #[trigger] top[k].position as int, #[trigger] top[l].position as int)
    &&& forall|j: int, k: int|
        #![trigger is_listed(top, j), top[k]]
        #![trigger ranks_before(s, top[k].position as int, j)]
        0 <= j < s.len() && !is_listed(top, j) && 0 <= k < top.len()
        ==> ranks_before(s, top[k].position as int, j)
}

/// The process list of the report: the `limit` first samples in the report's
/// order, or all of them where there are fewer.
pub open spec fn is_top_list(s: Seq<ProcessSample>, top: Seq<TopProcess>, limit: int) -> bool {
    &&& top.len() == if s.len() < limit { s.len() as int } else { limit }
    &&& is_leading_part(s, top)
}

/// Position `j` may come next after the lines of `top`.
pub open spec fn may_follow(s: Seq<ProcessSample>, top: Seq<TopProcess>, j: int) -> bool {
    top.len() == 0 || ranks_before(s, top[top.len() - 1].position as int, j)
}

/// Fewer positions than `n` cannot cover all of `0..n`.
proof fn lemma_position_left(pos: Seq<int>, n: int)
    requires
        pos.len() < n,
    ensures
        exists|j: int| 0 <= j < n && !pos.contains(j),
{
    if forall|j: int| 0 <= j < n ==> pos.contains(j) {
        lemma_int_range(0, n);
        pos.lemma_cardinality_of_set();
        assert(set_int_range(0, n).subset_of(pos.to_set()));
        lemma_len_subset(set_int_range(0, n), pos.to_set());
        assert(false);
    }
}

/// The sample that comes next in the report's order after the lines already
/// in `top`.
fn next_in_rank(samples: &Vec<ProcessSample>, top: &Vec<TopProcess>) -> (r: (usize, u64))
    requires
        is_leading_part(samples@, top@),
        top.len() < samples.len(),
    ensures
        r.0 < samples.len(),
        r.1 == samples@[r.0 as int].memory_bytes / MIB,
        may_follow(samples@, top@, r.0 as int),
        forall|j: int|
            0 <= j < samples.len() && may_follow(samples@, top@, j) ==> j == r.0 || ranks_before(samples@, r.0 as int, j),
{
    let ghost s = samples@;
    let n = samples.len();
    let mut found = false;
    let mut best: usize = 0;
    let mut best_mb: u64 = 0;
    let mut j: usize = 0;
    while j < n
        invariant
            s == samples@,
            n == samples.len(),
            j <= n,
            is_leading_part(s, top@),
            found ==> best < j && may_follow(s, top@, best as int) && best_mb == s[best as int].memory_bytes / MIB,
            found ==> forall|i: int| 0 <= i < j && may_follow(s, top@, i) ==> i == best || ranks_before(s, best as int, i),
            !found ==> forall|i: int| 0 <= i < j ==> !may_follow(s, top@, i),
        decreases n - j,
    {
        let mb = bytes_to_mib(samples[j].memory_bytes);
        let follows = if top.len() == 0 {
            true
        } else {
            let last = &top[top.len() - 1];
            last.memory_mb > mb || (last.memory_mb == mb && last.position < j)
        };
        assert(follows == may_follow(s, top@, j as int));
        let ghost old_found = found;
        let ghost old_best = best;
        if follows && (!found || mb > best_mb) {
            found = true;
            best = j;
            best_mb = mb;
        }
        proof {
            assert forall|i: int| 0 <= i <= j && may_follow(s, top@, i) implies i == best || ranks_before(s, best as int, i) by {
                if i < j && old_found && old_best != best {
                    assert(i == old_best || ranks_before(s, old_best as int, i));
                }
            }
        }
        j = j + 1;
    }
    proof {
        if !found {
            let pos = top@.map_values(|t: TopProcess| t.position as int);
            lemma_position_left(pos, n as int);
            let i = choose|i: int| 0 <= i < n && !pos.contains(i);
            if !is_listed(top@, i) {
                if top.len() > 0 {
                    assert(ranks_before(s, top@[top.len() - 1].position as int, i));
                }
                assert(may_follow(s, top@, i));
            } else {
                let k = choose|k: int| 0 <= k < top.len() && top@[k].position == i;
                assert(pos[k] == i);
            }
        }
    }
    (best, best_mb)
}

/// The report's process list: the `TOP_PROCESS_COUNT` samples with the most
/// memory in whole mebibytes, most first, ties kept in the order of
/// `samples` (all samples where there are fewer).
pub fn top_processes(samples: &Vec<ProcessSample>) -> (top: Vec<TopProcess>)
    ensures
        is_top_list(samples@, top@, TOP_PROCESS_COUNT as int),
{
    let ghost s = samples@;
    let n = samples.len();
    let mut top: Vec<TopProcess> = Vec::new();
    while top.len() < TOP_PROCESS_COUNT && top.len() < n
        invariant
            s == samples@,
            n == samples.len(),
            top.len() <= TOP_PROCESS_COUNT,
            top.len() <= n,
            is_leading_part(s, top@),
        decreases n - top.len(),
    {
        let ghost old_top = top@;
        let (best, best_mb) = next_in_rank(samples, &top);
        let line = TopProcess { position: best, name: samples[best].name.clone(), memory_mb: best_mb };
        top.push(line);
        proof {
            let new_top = top@;
            assert(new_top =~= old_top.push(line));
            assert forall|k: int, l: int|
                0 <= k < l < new_top.len() implies ranks_before(s, #[trigger] new_top[k].position as int, #[trigger] new_top[l].position as int) by {
                if l == new_top.len() - 1 {
                    if k < l - 1 {
                        assert(ranks_before(s, old_top[k].position as int, old_top[l - 1].position as int));
                    }
                }
            }
            assert forall|j: int, k: int|
                #![trigger is_listed(new_top, j), new_top[k]]
                #![trigger ranks_before(s, new_top[k].position as int, j)]
                0 <= j < s.len() && !is_listed(new_top, j) && 0 <= k < new_top.len()
                implies ranks_before(s, new_top[k].position as int, j) by {
                if !is_listed(old_top, j) {
                    if old_top.len() > 0 {
                        assert(ranks_before(s, old_top[old_top.len() - 1].position as int, j));
                    }
                    assert(may_follow(s, old_top, j));
                    assert(new_top[new_top.len() - 1].position == best);
                } else {
                    let k2 = choose|k2: int| 0 <= k2 < old_top.len() && old_top[k2].position == j;
                    assert(new_top[k2].position == j);
                }
            }
        }
    }
    top
}

} // verus!
