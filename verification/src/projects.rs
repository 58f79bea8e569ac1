use vstd::prelude::*;

use crate::text::{lex_le, string_eq, string_le};

verus! {

/// Whether an existing network already satisfies the wanted settings.
#[derive(Debug, Clone, Copy, PartialEq, Eq, Structural)]
pub enum EnsureNetworkOutcome {
    Ready,
    SubnetMismatch,
}

/// One network and the subnet it serves.
pub struct NetworkSubnet {
    pub name: String,
    pub subnet: String,
}

/// One running pod, as the container runtime reports it.
pub struct RunningPodItem {
    pub pod_id: String,
    pub name: String,
    pub project_root: String,
}

/// One running project: its name, its root, and how many of its pods run.
#[derive(Debug)]
pub struct RunningProject {
    pub name: String,
    pub project_root: String,
    pub pod_count: usize,
}

/// One running project and the network its pods sit on.
pub struct RunningProjectNetwork {
    pub name: String,
    pub project_root: String,
    pub network: String,
}

/// Whether a pod item belongs to the project keyed by name and root.
pub open spec fn item_keyed(item: RunningPodItem, name: Seq<char>, root: Seq<char>) -> bool {
    item.name@ == name && item.project_root@ == root
}

/// How many pod items belong to the project.
pub open spec fn key_count(items: Seq<RunningPodItem>, name: Seq<char>, root: Seq<char>) -> nat
    decreases items.len(),
{
    if items.len() == 0 {
        0
    } else {
        key_count(items.drop_last(), name, root) + (if item_keyed(items.last(), name, root) {
            1nat
        } else {
            0nat
        })
    }
}

pub proof fn project_le_trans(a: RunningProject, b: RunningProject, c: RunningProject)
    requires
        project_le(a, b),
        project_le(b, c),
    ensures
        project_le(a, c),
{
    if a.name@ == b.name@ && b.name@ == c.name@ {
        crate::text::lex_le_trans(a.project_root@, b.project_root@, c.project_root@);
    } else if a.name@ == b.name@ {
    } else if b.name@ == c.name@ {
    } else {
        if a.name@ == c.name@ {
            crate::text::lex_le_antisym(a.name@, b.name@);
        } else {
            crate::text::lex_le_trans(a.name@, b.name@, c.name@);
        }
    }
}

/// Order of project entries: by name, then by project root.
pub open spec fn project_le(a: RunningProject, b: RunningProject) -> bool {
    if a.name@ == b.name@ {
        lex_le(a.project_root@, b.project_root@)
    } else {
        lex_le(a.name@, b.name@)
    }
}

/// Whether a result entry for the key stands in `out`.
pub open spec fn has_key(out: Seq<RunningProject>, name: Seq<char>, root: Seq<char>) -> bool {
    exists|j: int| 0 <= j < out.len() && out[j].name@ == name && out[j].project_root@ == root
}

fn count_key(items: &Vec<RunningPodItem>, name: &String, root: &String) -> (r: usize)
    ensures
        r == key_count(items@, name@, root@),
{
    let n = items.len();
    let mut count: usize = 0;
    let mut i: usize = 0;
    proof {
        assert(items@.take(0) =~= Seq::<RunningPodItem>::empty());
    }
    while i < n
        invariant
            i <= n,
            n == items@.len(),
            count == key_count(items@.take(i as int), name@, root@),
            count <= i,
        decreases n - i,
    {
        proof {
            assert(items@.take(i as int + 1).drop_last() =~= items@.take(i as int));
            assert(items@.take(i as int + 1).last() == items@[i as int]);
        }
        if string_eq(&items[i].name, name) && string_eq(&items[i].project_root, root) {
            count = count + 1;
        }
        i = i + 1;
    }
    proof {
        assert(items@.take(n as int) =~= items@);
    }
    count
}

fn project_le_exec(a: &RunningProject, b: &RunningProject) -> (r: bool)
    ensures
        r == project_le(*a, *b),
{
    if string_eq(&a.name, &b.name) {
        string_le(&a.project_root, &b.project_root)
    } else {
        string_le(&a.name, &b.name)
    }
}

/// Aggregates the running pods into one entry per project: each project that
/// has a running pod appears exactly once, with its pod count; the entries
/// are ordered by name, then by project root.
#[verifier::rlimit(100)]
pub fn list_running_projects(items: &Vec<RunningPodItem>) -> (r: Vec<RunningProject>)
    ensures
        forall|j: int|
            0 <= j < r@.len() ==> #[trigger] r@[j].pod_count == key_count(
                items@,
                r@[j].name@,
                r@[j].project_root@,
            ) && key_count(items@, r@[j].name@, r@[j].project_root@) > 0,
        forall|i: int|
            0 <= i < items@.len() ==> has_key(r@, #[trigger] items@[i].name@,
                items@[i].project_root@),
        forall|p: int, q: int|
            0 <= p < q < r@.len() ==> !(r@[p].name@ == r@[q].name@ && r@[p].project_root@
                == r@[q].project_root@),
        forall|p: int, q: int| 0 <= p < q < r@.len() ==> project_le(#[trigger] r@[p], #[trigger] r@[q]),
{
    let n = items.len();
    let mut grouped: Vec<RunningProject> = Vec::new();
    let mut i: usize = 0;
    while i < n
        invariant
            i <= n,
            n == items@.len(),
            forall|j: int|
                0 <= j < grouped@.len() ==> #[trigger] grouped@[j].pod_count == key_count(
                    items@,
                    grouped@[j].name@,
                    grouped@[j].project_root@,
                ) && key_count(items@, grouped@[j].name@, grouped@[j].project_root@) > 0,
            forall|t: int|
                0 <= t < i ==> has_key(grouped@, #[trigger] items@[t].name@,
                    items@[t].project_root@),
            forall|p: int, q: int|
                0 <= p < q < grouped@.len() ==> !(grouped@[p].name@ == grouped@[q].name@
                    && grouped@[p].project_root@ == grouped@[q].project_root@),
        decreases n - i,
    {
        let name = &items[i].name;
        let root = &items[i].project_root;
        let mut seen = false;
        let m = grouped.len();
        let mut j: usize = 0;
        while j < m
            invariant
                j <= m,
                m == grouped@.len(),
                seen == exists|t: int|
                    0 <= t < j && grouped@[t].name@ == name@ && grouped@[t].project_root@ == root@,
            decreases m - j,
        {
            if string_eq(&grouped[j].name, name) && string_eq(&grouped[j].project_root, root) {
                seen = true;
            }
            j = j + 1;
        }
        let ghost g0 = grouped@;
        if !seen {
            let pod_count = count_key(items, name, root);
            proof {
                lemma_key_count_at(items@, i as int);
            }
            grouped.push(
                RunningProject {
                    name: name.clone(),
                    project_root: root.clone(),
                    pod_count,
                },
            );
        }
        proof {
            assert(has_key(grouped@, items@[i as int].name@, items@[i as int].project_root@)) by {
                if seen {
                    let t = choose|t: int|
                        0 <= t < g0.len() && g0[t].name@ == items@[i as int].name@
                            && g0[t].project_root@ == items@[i as int].project_root@;
                    assert(grouped@[t] == g0[t]);
                } else {
                    assert(grouped@[grouped@.len() - 1].name@ == items@[i as int].name@);
                }
            }
            assert forall|t: int|
                0 <= t < i + 1 implies has_key(grouped@, #[trigger] items@[t].name@,
                    items@[t].project_root@) by {
                if t < i as int {
                    let u = choose|u: int|
                        0 <= u < g0.len() && g0[u].name@ == items@[t].name@ && g0[u].project_root@
                            == items@[t].project_root@;
                    assert(grouped@[u] == g0[u]);
                }
            }
        }
        i = i + 1;
    }

    // Insertion sort by (name, project root); the grouped entries' keys are
    // pairwise distinct, and insertion keeps every entry.
    let g = grouped.len();
    let mut out: Vec<RunningProject> = Vec::new();
    let mut k: usize = 0;
    while k < g
        invariant
            k <= g,
            g == grouped@.len(),
            out@.len() == k,
            forall|p: int, q: int|
                0 <= p < q < grouped@.len() ==> !(grouped@[p].name@ == grouped@[q].name@
                    && grouped@[p].project_root@ == grouped@[q].project_root@),
            forall|j: int|
                0 <= j < grouped@.len() ==> #[trigger] grouped@[j].pod_count == key_count(
                    items@,
                    grouped@[j].name@,
                    grouped@[j].project_root@,
                ) && key_count(items@, grouped@[j].name@, grouped@[j].project_root@) > 0,
            forall|j: int|
                #![trigger out@[j]]
                0 <= j < out@.len() ==> exists|t: int| 0 <= t < k && out@[j] == grouped@[t],
            forall|t: int|
                0 <= t < k ==> exists|j: int|
                    0 <= j < out@.len() && #[trigger] grouped@[t] == out@[j],
            forall|p: int, q: int|
                0 <= p < q < out@.len() ==> !(out@[p].name@ == out@[q].name@
                    && out@[p].project_root@ == out@[q].project_root@),
            forall|p: int, q: int|
                0 <= p < q < out@.len() ==> project_le(#[trigger] out@[p], #[trigger] out@[q]),
            forall|j: int|
                0 <= j < out@.len() ==> #[trigger] out@[j].pod_count == key_count(
                    items@,
                    out@[j].name@,
                    out@[j].project_root@,
                ) && key_count(items@, out@[j].name@, out@[j].project_root@) > 0,
        decreases g - k,
    {
        let x = RunningProject {
            name: grouped[k].name.clone(),
            project_root: grouped[k].project_root.clone(),
            pod_count: grouped[k].pod_count,
        };
        proof {
            assert(x == grouped@[k as int]);
            assert forall|j: int|
                0 <= j < out@.len() implies !(#[trigger] out@[j].name@ == x.name@
                    && out@[j].project_root@ == x.project_root@) by {
                let t = choose|t: int| 0 <= t < k && out@[j] == grouped@[t];
            }
        }
        let m2 = out.len();
        let mut pos: usize = 0;
        while pos < m2 && !project_le_exec(&x, &out[pos])
            invariant
                pos <= m2,
                m2 == out@.len(),
                x == grouped@[k as int],
                forall|t: int| 0 <= t < pos ==> !project_le(x, #[trigger] out@[t]),
            decreases m2 - pos,
        {
            pos = pos + 1;
        }
        proof {
            assert forall|t: int| 0 <= t < pos implies project_le(#[trigger] out@[t], x) by {
                crate::text::lex_le_total(x.name@, out@[t].name@);
                crate::text::lex_le_total(x.project_root@, out@[t].project_root@);
            }
        }
        let ghost out0 = out@;
        out.insert(pos, x);
        proof {
            assert(out@ =~= out0.take(pos as int) + seq![x] + out0.skip(pos as int));
            assert forall|j: int| 0 <= j < pos implies out@[j] == out0[j] by {}
            assert(out@[pos as int] == x);
            assert forall|j: int| pos < j < out@.len() implies out@[j] == out0[j - 1] by {}
            assert forall|p: int, q: int|
                0 <= p < q < out@.len() implies !(out@[p].name@ == out@[q].name@
                    && out@[p].project_root@ == out@[q].project_root@) by {}
            assert forall|p: int, q: int|
                0 <= p < q < out@.len() implies project_le(#[trigger] out@[p], #[trigger] out@[q]) by {
                if p < pos as int && q == pos as int {
                } else if p == pos as int && q > pos as int {
                    if q - 1 > pos as int {
                        project_le_trans(x, out0[pos as int], out0[q - 1]);
                    }
                } else if p < pos as int && q > pos as int {
                    if q - 1 > pos as int {
                        project_le_trans(x, out0[pos as int], out0[q - 1]);
                    }
                    project_le_trans(out0[p], x, out0[q - 1]);
                } else {
                }
            }
            assert forall|j: int|
                0 <= j < out@.len() implies #[trigger] out@[j].pod_count == key_count(
                    items@,
                    out@[j].name@,
                    out@[j].project_root@,
                ) && key_count(items@, out@[j].name@, out@[j].project_root@) > 0 by {
                if j == pos as int {
                    assert(out@[j] == grouped@[k as int]);
                    assert(grouped@[k as int].pod_count == key_count(
                        items@,
                        grouped@[k as int].name@,
                        grouped@[k as int].project_root@,
                    ));
                }
            }
            assert forall|t: int|
                0 <= t < k + 1 implies exists|j: int|
                    0 <= j < out@.len() && #[trigger] grouped@[t] == out@[j] by {
                if t == k as int {
                    assert(grouped@[t] == out@[pos as int]);
                } else {
                    let j0 = choose|j: int| 0 <= j < out0.len() && grouped@[t] == out0[j];
                    if j0 < pos as int {
                        assert(grouped@[t] == out@[j0]);
                    } else {
                        assert(grouped@[t] == out@[j0 + 1]);
                    }
                }
            }
        }
        k = k + 1;
    }
    out
}

/// The key of any item has a positive count.
proof fn lemma_key_count_at(items: Seq<RunningPodItem>, i: int)
    requires
        0 <= i < items.len(),
    ensures
        key_count(items, items[i].name@, items[i].project_root@) > 0,
    decreases items.len(),
{
    if i == items.len() - 1 {
        assert(key_count(items.drop_last(), items[i].name@, items[i].project_root@) >= 0);
    } else {
        lemma_key_count_at(items.drop_last(), i);
        assert(items.drop_last()[i] == items[i]);
    }
}

} // verus!
