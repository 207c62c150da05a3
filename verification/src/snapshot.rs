//! Snapshot rendering: turns the aggregation state into an immutable summary
//! tree. Compact mode (progress) keeps only the root's immediate children,
//! capped and name-sorted, and omits file lists; full mode (final) renders
//! every level, children sorted by size descending with name as tie-break.

use vstd::prelude::*;
use vstd::math::min;
use crate::agg::{Aggregator, cap64, sum_from, sum_prefix, sum_u64};
use crate::text::{lex_le, lemma_lex_le_total, lemma_lex_le_trans, base_name, str_le};
use crate::topfiles::sizes_of;
use crate::types::{ScanFile, ScanNode, ScanSummary, clone_files};

verus! {

/// How many children a compact (progress) snapshot keeps per node.
pub const COMPACT_CHILD_CAP: usize = 400;

/// The child order of a rendered node: by name ascending in compact mode, by
/// size descending with name ascending as tie-break in full mode.
pub open spec fn node_le(by_size: bool, a: &ScanNode, b: &ScanNode) -> bool {
    if by_size {
        a.size_bytes > b.size_bytes || (a.size_bytes == b.size_bytes && lex_le(a.name@, b.name@))
    } else {
        lex_le(a.name@, b.name@)
    }
}

proof fn lemma_node_le_total(by_size: bool, a: &ScanNode, b: &ScanNode)
    ensures
        node_le(by_size, a, b) || node_le(by_size, b, a),
{
    lemma_lex_le_total(a.name@, b.name@);
}

proof fn lemma_node_le_trans(by_size: bool, a: &ScanNode, b: &ScanNode, c: &ScanNode)
    requires
        node_le(by_size, a, b),
        node_le(by_size, b, c),
    ensures
        node_le(by_size, a, c),
{
    if !by_size || (a.size_bytes == b.size_bytes && b.size_bytes == c.size_bytes) {
        if lex_le(a.name@, b.name@) && lex_le(b.name@, c.name@) {
            lemma_lex_le_trans(a.name@, b.name@, c.name@);
        }
    }
}

fn node_le_exec(by_size: bool, a: &ScanNode, b: &ScanNode) -> (r: bool)
    ensures
        r == node_le(by_size, a, b),
{
    if by_size {
        if a.size_bytes > b.size_bytes {
            true
        } else if a.size_bytes == b.size_bytes {
            str_le(a.name.as_str(), b.name.as_str())
        } else {
            false
        }
    } else {
        str_le(a.name.as_str(), b.name.as_str())
    }
}

/// `v` is sorted under the given child order.
pub open spec fn nodes_sorted(by_size: bool, v: Seq<ScanNode>) -> bool {
    forall|i: int, j: int| 0 <= i < j < v.len() ==> node_le(by_size, &v[i], &v[j])
}

/// Sort nodes by the mode's child order; the contents, and so the reported
/// size, file and directory totals, are preserved.
#[verifier::rlimit(100)]
#[verifier::spinoff_prover]
fn sort_nodes(v: &mut Vec<ScanNode>, by_size: bool)
    ensures
        nodes_sorted(by_size, final(v)@),
        final(v)@.to_multiset() == old(v)@.to_multiset(),
        final(v)@.len() == old(v)@.len(),
        sum_u64(child_sizes(final(v)@)) == sum_u64(child_sizes(old(v)@)),
        sum_u64(child_file_counts(final(v)@)) == sum_u64(child_file_counts(old(v)@)),
        sum_u64(child_dir_counts(final(v)@)) == sum_u64(child_dir_counts(old(v)@)),
{
    broadcast use vstd::seq_lib::group_to_multiset_ensures;

    if v.len() == 0 {
        return ;
    }
    let mut i: usize = 1;
    while i < v.len()
        invariant
            1 <= i <= v@.len(),
            forall|a: int, b: int| 0 <= a < b < i ==> node_le(by_size, &v@[a], &v@[b]),
            v@.to_multiset() == old(v)@.to_multiset(),
            v@.len() == old(v)@.len(),
            sum_u64(child_sizes(v@)) == sum_u64(child_sizes(old(v)@)),
            sum_u64(child_file_counts(v@)) == sum_u64(child_file_counts(old(v)@)),
            sum_u64(child_dir_counts(v@)) == sum_u64(child_dir_counts(old(v)@)),
        decreases v@.len() - i,
    {
        // Find the sorted position of v[i] within the sorted prefix.
        let mut p: usize = 0;
        loop
            invariant_except_break
                p <= i < v@.len(),
                forall|k: int| 0 <= k < p ==> node_le(by_size, &v@[k], &v@[i as int]),
            ensures
                p <= i < v@.len(),
                forall|k: int| 0 <= k < p ==> node_le(by_size, &v@[k], &v@[i as int]),
                p < i ==> !node_le(by_size, &v@[p as int], &v@[i as int]),
            decreases i - p,
        {
            if p == i {
                break ;
            }
            if !node_le_exec(by_size, &v[p], &v[i]) {
                break ;
            }
            p = p + 1;
        }
        let ghost pre = v@;
        let x = v.remove(i);
        let ghost mid = v@;
        v.insert(p, x);
        proof {
            broadcast use vstd::seq_lib::group_to_multiset_ensures;

            pre.remove_ensures(i as int);
            mid.insert_ensures(p as int, x);
            assert(mid.to_multiset() =~= pre.to_multiset().remove(pre[i as int])) by {
                assert(mid == pre.remove(i as int));
                assert(0 <= i < pre.len());
                assert(pre.remove(i as int).to_multiset() =~= pre.to_multiset().remove(
                    pre[i as int],
                ));
            }
            crate::topfiles::lemma_insert_to_multiset(mid, p as int, x);
            assert(sum_u64(child_sizes(v@)) == sum_u64(child_sizes(pre))) by {
                assert(child_sizes(mid) =~= child_sizes(pre).remove(i as int));
                crate::agg::lemma_sum_u64_remove(child_sizes(pre), i as int);
                assert(child_sizes(v@) =~= child_sizes(mid).insert(p as int, x.size_bytes));
                crate::agg::lemma_sum_u64_insert(child_sizes(mid), p as int, x.size_bytes);
                assert(x.size_bytes == child_sizes(pre)[i as int]);
            }
            assert(sum_u64(child_file_counts(v@)) == sum_u64(child_file_counts(pre))) by {
                assert(child_file_counts(mid) =~= child_file_counts(pre).remove(i as int));
                crate::agg::lemma_sum_u64_remove(child_file_counts(pre), i as int);
                assert(child_file_counts(v@) =~= child_file_counts(mid).insert(
                    p as int,
                    x.file_count,
                ));
                crate::agg::lemma_sum_u64_insert(child_file_counts(mid), p as int, x.file_count);
                assert(x.file_count == child_file_counts(pre)[i as int]);
            }
            assert(sum_u64(child_dir_counts(v@)) == sum_u64(child_dir_counts(pre))) by {
                assert(child_dir_counts(mid) =~= child_dir_counts(pre).remove(i as int));
                crate::agg::lemma_sum_u64_remove(child_dir_counts(pre), i as int);
                assert(child_dir_counts(v@) =~= child_dir_counts(mid).insert(
                    p as int,
                    x.dir_count,
                ));
                crate::agg::lemma_sum_u64_insert(child_dir_counts(mid), p as int, x.dir_count);
                assert(x.dir_count == child_dir_counts(pre)[i as int]);
            }
            assert(v@.to_multiset() =~= pre.to_multiset()) by {
                assert(v@ == mid.insert(p as int, x));
                assert(v@.to_multiset() == mid.to_multiset().insert(x));
                assert(pre.to_multiset().count(x) > 0) by {
                    assert(pre[i as int] == x);
                    assert(pre.contains(x));
                }
                assert forall|y: ScanNode|
                    v@.to_multiset().count(y) == pre.to_multiset().count(y) by {
                    assert(v@.to_multiset().count(y) == pre.to_multiset().remove(x).insert(
                        x,
                    ).count(y));
                }
            }
            // The prefix up to and including the inserted element is sorted.
            assert forall|a: int, b: int|
                0 <= a < b < i + 1 && b < v@.len() implies node_le(by_size, &v@[a], &v@[b]) by {
                if p < i {
                    lemma_node_le_total(by_size, &pre[p as int], &pre[i as int]);
                }
                if b < p {
                    assert(v@[a] == pre[a] && v@[b] == pre[b]);
                } else if b == p {
                    assert(v@[a] == pre[a] && v@[b] == x);
                } else {
                    assert(v@[b] == pre[b - 1]);
                    if a < p {
                        assert(v@[a] == pre[a]);
                        if b - 1 > p || p == i {
                            assert(node_le(by_size, &pre[a], &pre[b - 1]));
                        } else {
                            assert(b - 1 == p);
                            assert(node_le(by_size, &pre[a], &pre[p as int]));
                        }
                    } else if a == p {
                        assert(v@[a] == x);
                        assert(!node_le(by_size, &pre[p as int], &x));
                        assert(node_le(by_size, &x, &pre[p as int]));
                        if b - 1 > p {
                            lemma_node_le_trans(by_size, &x, &pre[p as int], &pre[b - 1]);
                        }
                    } else {
                        assert(v@[a] == pre[a - 1]);
                        assert(node_le(by_size, &pre[a - 1], &pre[b - 1]));
                    }
                }
            }
        }
        i = i + 1;
    }
}

/// The sizes reported by a list of nodes.
pub open spec fn child_sizes(ch: Seq<ScanNode>) -> Seq<u64> {
    ch.map_values(|n: ScanNode| n.size_bytes)
}

/// The file counts reported by a list of nodes.
pub open spec fn child_file_counts(ch: Seq<ScanNode>) -> Seq<u64> {
    ch.map_values(|n: ScanNode| n.file_count)
}

/// The directory counts reported by a list of nodes.
pub open spec fn child_dir_counts(ch: Seq<ScanNode>) -> Seq<u64> {
    ch.map_values(|n: ScanNode| n.dir_count)
}

/// The invariant of a fully rendered tree, at every node: the byte total is
/// the (capped) sum of the node's own files' sizes and its children's totals,
/// the file count likewise counts its own files plus its children's, the
/// directory count counts each child once plus that child's own count, and
/// the children are sorted by size descending with name as tie-break.
pub open spec fn node_consistent(n: ScanNode) -> bool
    decreases n,
{
    &&& n.size_bytes as int == cap64(sum_u64(sizes_of(n.files@)) + sum_u64(
        child_sizes(n.children@),
    ))
    &&& n.file_count as int == cap64(n.files@.len() + sum_u64(child_file_counts(n.children@)))
    &&& n.dir_count as int == cap64(n.children@.len() + sum_u64(child_dir_counts(n.children@)))
    &&& nodes_sorted(true, n.children@)
    &&& forall|k: int| 0 <= k < n.children@.len() ==> node_consistent(#[trigger] n.children@[k])
}

/// The shape of a compact (progress) snapshot: no file lists, children sorted
/// by name and capped, and only one level of them below this node.
pub open spec fn compact_shape(n: ScanNode) -> bool {
    &&& n.files@.len() == 0
    &&& nodes_sorted(false, n.children@)
    &&& n.children@.len() <= COMPACT_CHILD_CAP
    &&& forall|k: int|
        0 <= k < n.children@.len() ==> (#[trigger] n.children@[k]).children@.len() == 0 && n.children@[k].files@.len() == 0
}

/// `node` is the rendering of one of `idx`'s children: its path, size, file
/// and directory counts agree with that child's record and computed totals.
pub open spec fn child_rendered(
    d: Seq<crate::agg::DirRec>,
    tb: Seq<u64>,
    tf: Seq<u64>,
    td: Seq<u64>,
    idx: int,
    node: ScanNode,
) -> bool {
    exists|w: int|
        0 <= w < d[idx].children@.len() && {
            let c = (#[trigger] d[idx].children@[w]) as int;
            &&& node.path@ == d[c].path@
            &&& node.size_bytes == tb[c]
            &&& node.file_count == tf[c]
            &&& node.dir_count == td[c]
        }
}

/// Render the children of the directory at `idx`, sorted by the mode's
/// order; compact mode renders children only at the root and caps the list.
#[verifier::rlimit(100)]
#[verifier::spinoff_prover]
#[verifier::loop_isolation(false)]
fn build_children(
    agg: &Aggregator,
    tb: &Vec<u64>,
    tf: &Vec<u64>,
    td: &Vec<u64>,
    Ghost(bt): Ghost<Seq<int>>,
    Ghost(ft): Ghost<Seq<int>>,
    Ghost(dt): Ghost<Seq<int>>,
    idx: usize,
    compact: bool,
    depth: usize,
) -> (nodes: Vec<ScanNode>)
    requires
        agg.wf(),
        idx < agg.dirs@.len(),
        tb@.len() == agg.dirs@.len(),
        tf@.len() == agg.dirs@.len(),
        td@.len() == agg.dirs@.len(),
        bt.len() == agg.dirs@.len(),
        ft.len() == agg.dirs@.len(),
        dt.len() == agg.dirs@.len(),
        forall|j: int| 0 <= j < bt.len() ==> (#[trigger] bt[j]) >= 0 && tb@[j] as int == cap64(bt[j]),
        forall|j: int|
            0 <= j < bt.len() ==> (#[trigger] bt[j]) == sum_u64(sizes_of(agg.dirs@[j].files@))
                + sum_from(bt, agg.dirs@[j].children@, 1),
        forall|j: int| 0 <= j < ft.len() ==> (#[trigger] ft[j]) >= 0 && tf@[j] as int == cap64(ft[j]),
        forall|j: int|
            0 <= j < ft.len() ==> (#[trigger] ft[j]) == agg.dirs@[j].files@.len() + sum_from(
                ft,
                agg.dirs@[j].children@,
                1,
            ),
        forall|j: int| 0 <= j < dt.len() ==> (#[trigger] dt[j]) >= 0 && td@[j] as int == cap64(dt[j]),
        forall|j: int|
            0 <= j < dt.len() ==> (#[trigger] dt[j]) == agg.dirs@[j].children@.len() + sum_from(
                dt,
                agg.dirs@[j].children@,
                1,
            ),
    ensures
        nodes_sorted(!compact, nodes@),
        compact && depth >= 1 ==> nodes@.len() == 0,
        compact && depth == 0 ==> nodes@.len() as int == min(
            agg.dirs@[idx as int].children@.len() as int,
            COMPACT_CHILD_CAP as int,
        ),
        !compact ==> nodes@.len() == agg.dirs@[idx as int].children@.len(),
        forall|k: int|
            0 <= k < nodes@.len() ==> child_rendered(
                agg.dirs@,
                tb@,
                tf@,
                td@,
                idx as int,
                #[trigger] nodes@[k],
            ),
        !compact ==> forall|k: int|
            0 <= k < nodes@.len() ==> node_consistent(#[trigger] nodes@[k]),
        compact ==> forall|k: int|
            0 <= k < nodes@.len() ==> (#[trigger] nodes@[k]).children@.len() == 0
                && nodes@[k].files@.len() == 0,
        !compact ==> sum_u64(child_sizes(nodes@)) == sum_from(
            tb@.map_values(|x: u64| x as int),
            agg.dirs@[idx as int].children@,
            1,
        ),
        !compact ==> sum_u64(child_file_counts(nodes@)) == sum_from(
            tf@.map_values(|x: u64| x as int),
            agg.dirs@[idx as int].children@,
            1,
        ),
        !compact ==> sum_u64(child_dir_counts(nodes@)) == sum_from(
            td@.map_values(|x: u64| x as int),
            agg.dirs@[idx as int].children@,
            1,
        ),
    decreases agg.dirs@.len() - idx, 0int,
{
    let d = &agg.dirs[idx];
    let ghost ct = tb@.map_values(|x: u64| x as int);
    let ghost cf = tf@.map_values(|x: u64| x as int);
    let ghost cd = td@.map_values(|x: u64| x as int);
    let mut nodes: Vec<ScanNode> = Vec::new();
    if compact && depth >= 1 {
        return nodes;
    }
    let mut k: usize = 0;
    while k < d.children.len()
        invariant
            agg.wf(),
            idx < agg.dirs@.len(),
            tb@.len() == agg.dirs@.len(),
            tf@.len() == agg.dirs@.len(),
            td@.len() == agg.dirs@.len(),
            bt.len() == agg.dirs@.len(),
            forall|j: int|
                0 <= j < bt.len() ==> (#[trigger] bt[j]) >= 0 && tb@[j] as int == cap64(bt[j]),
            forall|j: int|
                0 <= j < bt.len() ==> (#[trigger] bt[j]) == sum_u64(
                    sizes_of(agg.dirs@[j].files@),
                ) + sum_from(bt, agg.dirs@[j].children@, 1),
            ct == tb@.map_values(|x: u64| x as int),
            cf == tf@.map_values(|x: u64| x as int),
            cd == td@.map_values(|x: u64| x as int),
            d == &agg.dirs@[idx as int],
            k <= d.children@.len(),
            nodes@.len() == k,
            forall|q: int|
                0 <= q < nodes@.len() ==> child_rendered(
                    agg.dirs@,
                    tb@,
                    tf@,
                    td@,
                    idx as int,
                    #[trigger] nodes@[q],
                ),
            !compact ==> forall|q: int|
                0 <= q < nodes@.len() ==> node_consistent(#[trigger] nodes@[q]),
            compact ==> forall|q: int|
                0 <= q < nodes@.len() ==> (#[trigger] nodes@[q]).children@.len() == 0
                    && nodes@[q].files@.len() == 0,
            !compact ==> sum_u64(child_sizes(nodes@)) == sum_from(
                ct,
                d.children@.take(k as int),
                1,
            ),
            !compact ==> sum_u64(child_file_counts(nodes@)) == sum_from(
                cf,
                d.children@.take(k as int),
                1,
            ),
            !compact ==> sum_u64(child_dir_counts(nodes@)) == sum_from(
                cd,
                d.children@.take(k as int),
                1,
            ),
        decreases d.children@.len() - k,
    {
        let c = d.children[k];
        proof {
            assert(agg.dirs@[idx as int].children@[k as int] == c);
            assert((agg.dirs@[c as int].parent as int) == idx as int);
            assert(c as int > idx as int);
        }
        let child_depth = if depth == 0 {
            1
        } else {
            depth
        };
        let child = build_node(agg, tb, tf, td, Ghost(bt), Ghost(ft), Ghost(dt), c, compact, child_depth);
        let ghost csize = child.size_bytes;
        let ghost cfiles = child.file_count;
        let ghost cdirs = child.dir_count;
        let ghost pre_nodes = nodes@;
        nodes.push(child);
        proof {
            assert(child_rendered(agg.dirs@, tb@, tf@, td@, idx as int, nodes@[k as int])) by {
                assert(agg.dirs@[idx as int].children@[k as int] == c);
            }
            if !compact {
                let ch = d.children@;
                assert(ch.take(k + 1).drop_last() =~= ch.take(k as int));
                assert(ch.take(k + 1).last() == c);
                assert(1 <= c as int);
                assert(child_sizes(nodes@) =~= child_sizes(pre_nodes).push(csize));
                assert(child_sizes(nodes@).drop_last() =~= child_sizes(pre_nodes));
                assert(child_sizes(nodes@).last() == csize);
                assert(sum_u64(child_sizes(nodes@)) == sum_u64(child_sizes(pre_nodes)) + csize);
                assert(ct[c as int] == tb@[c as int] as int);
                assert(csize == tb@[c as int]);
                assert(sum_from(ct, ch.take(k + 1), 1) == sum_from(ct, ch.take(k as int), 1)
                    + ct[c as int]);
                assert(child_file_counts(nodes@) =~= child_file_counts(pre_nodes).push(cfiles));
                assert(child_file_counts(nodes@).drop_last() =~= child_file_counts(pre_nodes));
                assert(child_file_counts(nodes@).last() == cfiles);
                assert(sum_u64(child_file_counts(nodes@)) == sum_u64(
                    child_file_counts(pre_nodes),
                ) + cfiles);
                assert(cf[c as int] == tf@[c as int] as int);
                assert(cfiles == tf@[c as int]);
                assert(sum_from(cf, ch.take(k + 1), 1) == sum_from(cf, ch.take(k as int), 1)
                    + cf[c as int]);
                assert(child_dir_counts(nodes@) =~= child_dir_counts(pre_nodes).push(cdirs));
                assert(child_dir_counts(nodes@).drop_last() =~= child_dir_counts(pre_nodes));
                assert(child_dir_counts(nodes@).last() == cdirs);
                assert(sum_u64(child_dir_counts(nodes@)) == sum_u64(child_dir_counts(pre_nodes))
                    + cdirs);
                assert(cd[c as int] == td@[c as int] as int);
                assert(cdirs == td@[c as int]);
                assert(sum_from(cd, ch.take(k + 1), 1) == sum_from(cd, ch.take(k as int), 1)
                    + cd[c as int]);
            }
        }
        k = k + 1;
    }
    proof {
        assert(d.children@.take(d.children@.len() as int) =~= d.children@);
    }
    let ghost built = nodes@;
    sort_nodes(&mut nodes, !compact);
    proof {
        broadcast use vstd::seq_lib::group_to_multiset_ensures;

        assert forall|q: int| 0 <= q < nodes@.len() implies child_rendered(
            agg.dirs@,
            tb@,
            tf@,
            td@,
            idx as int,
            #[trigger] nodes@[q],
        ) && (!compact ==> node_consistent(nodes@[q])) && (compact ==> nodes@[q].children@.len()
            == 0 && nodes@[q].files@.len() == 0) by {
            let e = nodes@[q];
            assert(nodes@.contains(e));
            assert(nodes@.to_multiset().count(e) > 0);
            assert(built.to_multiset().count(e) > 0);
            assert(built.contains(e));
            let w = choose|w: int| 0 <= w < built.len() && built[w] == e;
            assert(child_rendered(agg.dirs@, tb@, tf@, td@, idx as int, built[w]));
            if !compact {
                assert(node_consistent(built[w]));
            }
        }
    }
    if compact && nodes.len() > COMPACT_CHILD_CAP {
        let ghost pre = nodes@;
        nodes.truncate(COMPACT_CHILD_CAP);
        proof {
            assert(forall|q: int| 0 <= q < nodes@.len() ==> nodes@[q] == pre[q]);
        }
    }
    nodes
}

/// Render the directory at `idx` as a tree node, totals taken from the
/// bottom-up pass. Compact mode keeps no file lists and only one level of
/// children (capped); full mode keeps everything, children size-sorted, and
/// the rendered tree satisfies the size invariant ([`node_bytes_consistent`]).
#[verifier::rlimit(100)]
#[verifier::spinoff_prover]
fn build_node(
    agg: &Aggregator,
    tb: &Vec<u64>,
    tf: &Vec<u64>,
    td: &Vec<u64>,
    Ghost(bt): Ghost<Seq<int>>,
    Ghost(ft): Ghost<Seq<int>>,
    Ghost(dt): Ghost<Seq<int>>,
    idx: usize,
    compact: bool,
    depth: usize,
) -> (r: ScanNode)
    requires
        agg.wf(),
        idx < agg.dirs@.len(),
        tb@.len() == agg.dirs@.len(),
        tf@.len() == agg.dirs@.len(),
        td@.len() == agg.dirs@.len(),
        bt.len() == agg.dirs@.len(),
        ft.len() == agg.dirs@.len(),
        dt.len() == agg.dirs@.len(),
        forall|j: int| 0 <= j < bt.len() ==> (#[trigger] bt[j]) >= 0 && tb@[j] as int == cap64(bt[j]),
        forall|j: int|
            0 <= j < bt.len() ==> (#[trigger] bt[j]) == sum_u64(sizes_of(agg.dirs@[j].files@))
                + sum_from(bt, agg.dirs@[j].children@, 1),
        forall|j: int| 0 <= j < ft.len() ==> (#[trigger] ft[j]) >= 0 && tf@[j] as int == cap64(ft[j]),
        forall|j: int|
            0 <= j < ft.len() ==> (#[trigger] ft[j]) == agg.dirs@[j].files@.len() + sum_from(
                ft,
                agg.dirs@[j].children@,
                1,
            ),
        forall|j: int| 0 <= j < dt.len() ==> (#[trigger] dt[j]) >= 0 && td@[j] as int == cap64(dt[j]),
        forall|j: int|
            0 <= j < dt.len() ==> (#[trigger] dt[j]) == agg.dirs@[j].children@.len() + sum_from(
                dt,
                agg.dirs@[j].children@,
                1,
            ),
    ensures
        !compact ==> node_consistent(r),
        compact && depth == 0 ==> compact_shape(r),
        r.path@ == agg.dirs@[idx as int].path@,
        r.name@ == crate::text::spec_base_name(agg.dirs@[idx as int].path@),
        r.size_bytes == tb@[idx as int],
        r.file_count == tf@[idx as int],
        r.dir_count == td@[idx as int],
        compact ==> r.files@.len() == 0,
        !compact ==> r.files@ == agg.dirs@[idx as int].files@,
        nodes_sorted(!compact, r.children@),
        compact && depth >= 1 ==> r.children@.len() == 0,
        compact && depth == 0 ==> r.children@.len() as int == min(
            agg.dirs@[idx as int].children@.len() as int,
            COMPACT_CHILD_CAP as int,
        ),
        !compact ==> r.children@.len() == agg.dirs@[idx as int].children@.len(),
        forall|k: int|
            0 <= k < r.children@.len() ==> child_rendered(
                agg.dirs@,
                tb@,
                tf@,
                td@,
                idx as int,
                #[trigger] r.children@[k],
            ),
    decreases agg.dirs@.len() - idx, 1int,
{
    let d = &agg.dirs[idx];
    let name = base_name(d.path.as_str());
    let files = if compact {
        Vec::new()
    } else {
        clone_files(&d.files)
    };
    let ghost ct = tb@.map_values(|x: u64| x as int);
    let ghost cf = tf@.map_values(|x: u64| x as int);
    let ghost cd = td@.map_values(|x: u64| x as int);
    let nodes = build_children(agg, tb, tf, td, Ghost(bt), Ghost(ft), Ghost(dt), idx, compact, depth);
    let r = ScanNode {
        path: d.path.clone(),
        name,
        size_bytes: tb[idx],
        file_count: tf[idx],
        dir_count: td[idx],
        files,
        children: nodes,
    };
    proof {
        if !compact {
            let ch = agg.dirs@[idx as int].children@;
            assert(forall|k: int|
                0 <= k < ch.len() ==> ((#[trigger] ch[k]) as int) < bt.len());
            let direct = sum_u64(sizes_of(agg.dirs@[idx as int].files@));
            crate::agg::lemma_sum_u64_nonneg(sizes_of(agg.dirs@[idx as int].files@));
            crate::agg::lemma_cap_sum_from(direct, bt, ct, ch, 1);
            assert(r.size_bytes as int == cap64(bt[idx as int]));
            assert(bt[idx as int] == direct + sum_from(bt, ch, 1));
            assert(sum_u64(child_sizes(r.children@)) == sum_from(ct, ch, 1));
            assert(sizes_of(r.files@) == sizes_of(agg.dirs@[idx as int].files@));
            assert(r.size_bytes as int == cap64(
                sum_u64(sizes_of(r.files@)) + sum_u64(child_sizes(r.children@)),
            ));
            let fdirect = agg.dirs@[idx as int].files@.len() as int;
            crate::agg::lemma_cap_sum_from(fdirect, ft, cf, ch, 1);
            assert(r.file_count as int == cap64(ft[idx as int]));
            assert(ft[idx as int] == fdirect + sum_from(ft, ch, 1));
            assert(sum_u64(child_file_counts(r.children@)) == sum_from(cf, ch, 1));
            assert(r.files@.len() == agg.dirs@[idx as int].files@.len());
            assert(r.file_count as int == cap64(
                r.files@.len() + sum_u64(child_file_counts(r.children@)),
            ));
            let ddirect = ch.len() as int;
            crate::agg::lemma_cap_sum_from(ddirect, dt, cd, ch, 1);
            assert(r.dir_count as int == cap64(dt[idx as int]));
            assert(dt[idx as int] == ddirect + sum_from(dt, ch, 1));
            assert(sum_u64(child_dir_counts(r.children@)) == sum_from(cd, ch, 1));
            assert(r.children@.len() == ch.len());
            assert(r.dir_count as int == cap64(
                r.children@.len() + sum_u64(child_dir_counts(r.children@)),
            ));
            assert(node_consistent(r));
        }
        if compact && depth == 0 {
            assert(compact_shape(r));
        }
    }
    r
}

/// Render the whole aggregation state into a summary. The summary totals are
/// the root node's recursive totals: the capped sums, over every registered
/// directory, of its direct bytes, files and subdirectories.
pub fn render_summary(
    agg: &Aggregator,
    largest: &Vec<ScanFile>,
    id: Option<String>,
    duration_ms: u64,
    compact: bool,
) -> (r: ScanSummary)
    requires
        agg.wf(),
        agg.dirs@.len() > 0,
    ensures
        r.total_bytes as int == cap64(
            sum_prefix(agg.direct_bytes_true(), agg.dirs@.len() as int),
        ),
        r.file_count as int == cap64(
            sum_prefix(agg.direct_files_true(), agg.dirs@.len() as int),
        ),
        r.dir_count as int == cap64(sum_prefix(agg.direct_dirs_true(), agg.dirs@.len() as int)),
        r.root.size_bytes == r.total_bytes,
        r.root.file_count == r.file_count,
        r.root.dir_count == r.dir_count,
        r.root.path@ == agg.dirs@[0].path@,
        r.largest_files@ == largest@,
        r.id == id,
        r.duration_ms == duration_ms,
        nodes_sorted(!compact, r.root.children@),
        compact ==> r.root.files@.len() == 0,
        !compact ==> r.root.files@ == agg.dirs@[0].files@,
        !compact ==> r.root.children@.len() == agg.dirs@[0].children@.len(),
        compact ==> r.root.children@.len() as int == min(
            agg.dirs@[0].children@.len() as int,
            COMPACT_CHILD_CAP as int,
        ),
        !compact ==> node_consistent(r.root),
        compact ==> compact_shape(r.root),
{
    let n = agg.dirs.len();
    let mut bytes_direct: Vec<u64> = Vec::new();
    let mut files_direct: Vec<u64> = Vec::new();
    let mut dirs_direct: Vec<u64> = Vec::new();
    let mut q: usize = 0;
    while q < n
        invariant
            agg.wf(),
            n == agg.dirs@.len(),
            q <= n,
            bytes_direct@.len() == q,
            files_direct@.len() == q,
            dirs_direct@.len() == q,
            forall|j: int|
                0 <= j < q ==> (#[trigger] bytes_direct@[j]) as int == cap64(
                    agg.direct_bytes_true()[j],
                ),
            forall|j: int|
                0 <= j < q ==> (#[trigger] files_direct@[j]) as int == cap64(
                    agg.direct_files_true()[j],
                ),
            forall|j: int|
                0 <= j < q ==> (#[trigger] dirs_direct@[j]) as int == cap64(
                    agg.direct_dirs_true()[j],
                ),
        decreases n - q,
    {
        let rec = &agg.dirs[q];
        bytes_direct.push(rec.stats.direct_bytes);
        files_direct.push(rec.stats.direct_files);
        dirs_direct.push(rec.stats.direct_dirs);
        q = q + 1;
    }
    proof {
        assert forall|j: int| 0 <= j < n implies agg.direct_bytes_true()[j] >= 0 by {
            crate::agg::lemma_sum_u64_nonneg(sizes_of(agg.dirs@[j].files@));
        }
    }
    let (tb, gb) = agg.fold_totals(&bytes_direct, Ghost(agg.direct_bytes_true()));
    let (tf, gf) = agg.fold_totals(&files_direct, Ghost(agg.direct_files_true()));
    let (td, gd) = agg.fold_totals(&dirs_direct, Ghost(agg.direct_dirs_true()));
    proof {
        assert(forall|j: int|
            0 <= j < agg.dirs@.len() ==> (#[trigger] agg.direct_bytes_true()[j]) == sum_u64(
                sizes_of(agg.dirs@[j].files@),
            ));
        assert(forall|j: int|
            0 <= j < agg.dirs@.len() ==> (#[trigger] agg.direct_files_true()[j])
                == agg.dirs@[j].files@.len());
        assert(forall|j: int|
            0 <= j < agg.dirs@.len() ==> (#[trigger] agg.direct_dirs_true()[j])
                == agg.dirs@[j].children@.len());
    }
    let root = build_node(agg, &tb, &tf, &td, Ghost(gb@), Ghost(gf@), Ghost(gd@), 0, compact, 0);
    let total_bytes = tb[0];
    let file_count = tf[0];
    let dir_count = td[0];
    ScanSummary {
        id,
        root,
        total_bytes,
        file_count,
        dir_count,
        largest_files: clone_files(largest),
        duration_ms,
    }
}

} // verus!
