//! The semantic analyzer: resolves every name a definition references
//! against the set of top-level definition names, builds the dependency
//! graph (one node per definition, plus one fresh node per inline type),
//! and reports whether the definitions refer back to themselves.
use vstd::prelude::*;

use petgraph::Directed;
use petgraph::graph::Graph;

use crate::ast::GetFields;
use crate::ast::GetName;
use crate::ast::MacrodDef;
use crate::ast::SpecDef;
use crate::ast::SpecMacro;
use crate::ast::SpecTypeOrName;
use crate::ast::TypeOrName;
use crate::ast::fields_of_def;
use crate::ast::lemma_view_defs_index;
use crate::ast::lemma_view_defs_len;
use crate::ast::lemma_view_tons_index;
use crate::ast::lemma_view_tons_len;
use crate::ast::name_of_def;
use crate::ast::view_defs;
use crate::ast::view_tons;
use crate::graph::graph_add_edge;
use crate::graph::graph_add_node;
use crate::graph::graph_edges;
use crate::graph::graph_is_cyclic;
use crate::graph::graph_new;
use crate::graph::graph_nodes;
use crate::graph::has_cycle;

verus! {

/// An analysis failure: a name used as a type reference has no matching
/// top-level definition.
#[derive(Debug, PartialEq)]
pub enum Error {
    NameIsNotFound(String),
}

// ---------------------------------------------------------------------------
// Name resolution
// ---------------------------------------------------------------------------
/// The definition a bare name resolves to: the index of the last
/// definition carrying that name, as a name table filled front to back
/// would have it.
pub open spec fn resolve(ds: Seq<SpecMacro<SpecDef>>, n: Seq<char>) -> Option<int>
    decreases ds,
{
    if ds.len() == 0 {
        None
    } else if name_of_def(ds.last().body) == n {
        Some(ds.len() - 1)
    } else {
        resolve(ds.drop_last(), n)
    }
}

/// The first unresolved name at or after field `j` of the references of
/// definition `i`.
pub open spec fn unres_in_fields(
    fields: Seq<SpecTypeOrName>,
    ds: Seq<SpecMacro<SpecDef>>,
    j: int,
) -> Option<Seq<char>>
    decreases fields.len() - j,
{
    if j < 0 || j >= fields.len() {
        None
    } else {
        match fields[j] {
            SpecTypeOrName::Name(n) => if resolve(ds, n) is None {
                Some(n)
            } else {
                unres_in_fields(fields, ds, j + 1)
            },
            SpecTypeOrName::Type(_) => unres_in_fields(fields, ds, j + 1),
        }
    }
}

/// The first unresolved name at or after definition `i`, scanning each
/// definition's references in order.
pub open spec fn unres_in_defs(ds: Seq<SpecMacro<SpecDef>>, i: int) -> Option<Seq<char>>
    decreases ds.len() - i,
{
    if i < 0 || i >= ds.len() {
        None
    } else {
        match unres_in_fields(fields_of_def(ds[i].body), ds, 0) {
            Some(n) => Some(n),
            None => unres_in_defs(ds, i + 1),
        }
    }
}

// ---------------------------------------------------------------------------
// The dependency graph
// ---------------------------------------------------------------------------
// A deliberate reading of the analyzer's graph: nodes are keyed by
// definition index (one node per definition, standing for the type that
// definition declares), plus one fresh node per inline type reference;
// edges are a set, so a definition that references the same name twice
// holds one edge to it. What the analysis reports — whether some
// definition transitively refers back to itself — is unchanged by either
// choice.
/// Fold the references of definition `i`, from field `j` on, into the
/// edge set: a resolved name points at its definition's node, an inline
/// type gets a fresh node of its own. An unresolved name contributes
/// nothing (the analysis has failed by then anyway).
pub open spec fn build_f(
    fields: Seq<SpecTypeOrName>,
    ds: Seq<SpecMacro<SpecDef>>,
    i: int,
    j: int,
    next: nat,
    acc: Set<(nat, nat)>,
) -> (Set<(nat, nat)>, nat)
    decreases fields.len() - j,
{
    if j < 0 || j >= fields.len() {
        (acc, next)
    } else {
        match fields[j] {
            SpecTypeOrName::Name(n) => match resolve(ds, n) {
                Some(k) => build_f(fields, ds, i, j + 1, next, acc.insert((i as nat, k as nat))),
                None => build_f(fields, ds, i, j + 1, next, acc),
            },
            SpecTypeOrName::Type(_) => build_f(
                fields,
                ds,
                i,
                j + 1,
                next + 1,
                acc.insert((i as nat, next)),
            ),
        }
    }
}

pub open spec fn build_d(
    ds: Seq<SpecMacro<SpecDef>>,
    i: int,
    next: nat,
    acc: Set<(nat, nat)>,
) -> (Set<(nat, nat)>, nat)
    decreases ds.len() - i,
{
    if i < 0 || i >= ds.len() {
        (acc, next)
    } else {
        let (acc2, next2) = build_f(fields_of_def(ds[i].body), ds, i, 0, next, acc);
        build_d(ds, i + 1, next2, acc2)
    }
}

/// The edges of the dependency graph of these definitions.
pub open spec fn def_edges(ds: Seq<SpecMacro<SpecDef>>) -> Set<(nat, nat)> {
    build_d(ds, 0, ds.len() as nat, Set::empty()).0
}

/// The node count of the dependency graph of these definitions.
pub open spec fn def_nodes(ds: Seq<SpecMacro<SpecDef>>) -> nat {
    build_d(ds, 0, ds.len() as nat, Set::empty()).1
}

/// Folding more references never lowers the fresh-node counter.
pub proof fn lemma_build_f_mono(
    fields: Seq<SpecTypeOrName>,
    ds: Seq<SpecMacro<SpecDef>>,
    i: int,
    j: int,
    next: nat,
    acc: Set<(nat, nat)>,
)
    ensures
        build_f(fields, ds, i, j, next, acc).1 >= next,
    decreases fields.len() - j,
{
    if 0 <= j && j < fields.len() {
        match fields[j] {
            SpecTypeOrName::Name(n) => match resolve(ds, n) {
                Some(k) => lemma_build_f_mono(
                    fields,
                    ds,
                    i,
                    j + 1,
                    next,
                    acc.insert((i as nat, k as nat)),
                ),
                None => lemma_build_f_mono(fields, ds, i, j + 1, next, acc),
            },
            SpecTypeOrName::Type(_) => lemma_build_f_mono(
                fields,
                ds,
                i,
                j + 1,
                next + 1,
                acc.insert((i as nat, next)),
            ),
        }
    }
}

/// Folding more definitions never lowers the fresh-node counter.
pub proof fn lemma_build_d_mono(ds: Seq<SpecMacro<SpecDef>>, i: int, next: nat, acc: Set<(nat, nat)>)
    ensures
        build_d(ds, i, next, acc).1 >= next,
    decreases ds.len() - i,
{
    if 0 <= i && i < ds.len() {
        let (acc2, next2) = build_f(fields_of_def(ds[i].body), ds, i, 0, next, acc);
        lemma_build_f_mono(fields_of_def(ds[i].body), ds, i, 0, next, acc);
        lemma_build_d_mono(ds, i + 1, next2, acc2);
    }
}

/// Resolve a bare name against the definitions: the index of the last
/// definition with that name.
fn resolve_name(defs: &Vec<MacrodDef>, n: &String) -> (r: Option<usize>)
    ensures
        (match r {
            Some(k) => resolve(view_defs(defs@), n@) == Some(k as int) && k < defs@.len(),
            None => resolve(view_defs(defs@), n@) is None,
        }),
{
    let mut k: usize = defs.len();
    proof {
        lemma_view_defs_len(defs@);
        assert(view_defs(defs@).subrange(0, k as int) =~= view_defs(defs@));
    }
    while k > 0
        invariant
            k <= defs@.len(),
            resolve(view_defs(defs@), n@) == resolve(
                view_defs(defs@).subrange(0, k as int),
                n@,
            ),
        decreases k,
    {
        let gn = (*defs[k - 1].0.body).get_name().to_owned();
        proof {
            lemma_view_defs_index(defs@, k - 1 as int);
            lemma_view_defs_len(defs@);
            crate::ast::lemma_view_defs_subrange(defs@, k as int);
            assert(view_defs(defs@).subrange(0, k as int).last() == view_defs(defs@)[k - 1]);
            assert(view_defs(defs@).subrange(0, k as int).drop_last() =~= view_defs(
                defs@,
            ).subrange(0, k - 1 as int));
        }
        if gn == *n {
            return Some(k - 1);
        }
        k = k - 1;
    }
    proof {
        assert(view_defs(defs@).subrange(0, 0) =~= Seq::<SpecMacro<SpecDef>>::empty());
    }
    None
}

/// Build the dependency graph: one node per definition (keyed by its
/// index and standing for the type it declares), an edge from each
/// definition to everything it references (deduplicated, as `def_edges`
/// is a set), and a fresh node for each inline type. Fails on the first
/// reference that resolves to no definition. The node count is bounded by
/// the machine word, the only size the graph's indices can carry.
pub fn ir2graph(defs: &Vec<MacrodDef>) -> (r: Result<Graph<(), (), Directed, usize>, Error>)
    requires
        def_nodes(view_defs(defs@)) <= usize::MAX,
    ensures
        (match r {
            Ok(g) => unres_in_defs(view_defs(defs@), 0) is None && graph_edges(g) == def_edges(
                view_defs(defs@),
            ) && graph_nodes(g) == def_nodes(view_defs(defs@)),
            Err(Error::NameIsNotFound(n)) => unres_in_defs(view_defs(defs@), 0) == Some(n@),
        }),
{
    let ghost ds: Seq<SpecMacro<SpecDef>> = view_defs(defs@);
    proof {
        lemma_view_defs_len(defs@);
        lemma_build_d_mono(ds, 0, defs@.len() as nat, Set::empty());
    }
    let mut g = graph_new();
    let n: usize = defs.len();
    let mut i: usize = 0;
    while i < n
        invariant
            n == defs@.len(),
            ds == view_defs(defs@),
            ds.len() == n as nat,
            def_nodes(ds) <= usize::MAX,
            def_nodes(ds) >= n as nat,
            i <= n,
            graph_nodes(g) == i as nat,
            graph_edges(g) == Set::<(nat, nat)>::empty(),
        decreases n - i,
    {
        let _ = graph_add_node(&mut g);
        i += 1;
    }
    let mut next: usize = n;
    let mut i: usize = 0;
    while i < n
        invariant
            n == defs@.len(),
            ds == view_defs(defs@),
            ds.len() == n as nat,
            i <= n,
            n <= next,
            graph_nodes(g) == next as nat,
            unres_in_defs(ds, 0) == unres_in_defs(ds, i as int),
            def_nodes(ds) <= usize::MAX,
            build_d(ds, 0, n as nat, Set::empty()) == build_d(
                ds,
                i as int,
                next as nat,
                graph_edges(g),
            ),
        decreases n - i,
    {
        let fields = (*defs[i].0.body).get_fields();
        proof {
            lemma_view_defs_index(defs@, i as int);
            lemma_view_tons_len(fields@);
        }
        let m: usize = fields.len();
        let mut j: usize = 0;
        while j < m
            invariant
                n == defs@.len(),
                ds == view_defs(defs@),
                ds.len() == n as nat,
                i < n,
                m == fields@.len(),
                view_tons(fields@) == fields_of_def(ds[i as int].body),
                j <= m,
                n <= next,
                graph_nodes(g) == next as nat,
                unres_in_defs(ds, 0) == unres_in_defs(ds, i as int),
                unres_in_fields(fields_of_def(ds[i as int].body), ds, 0) == unres_in_fields(
                    fields_of_def(ds[i as int].body),
                    ds,
                    j as int,
                ),
                def_nodes(ds) <= usize::MAX,
                build_d(ds, 0, n as nat, Set::empty()) == ({
                    let (acc2, next2) = build_f(
                        fields_of_def(ds[i as int].body),
                        ds,
                        i as int,
                        j as int,
                        next as nat,
                        graph_edges(g),
                    );
                    build_d(ds, i + 1 as int, next2, acc2)
                }),
            decreases m - j,
        {
            let ghost fdef = fields_of_def(ds[i as int].body);
            proof {
                lemma_view_tons_index(fields@, j as int);
                lemma_view_tons_len(fields@);
            }
            match &fields[j] {
                TypeOrName::Name(nm) => {
                    match resolve_name(defs, nm) {
                        Some(k) => {
                            graph_add_edge(&mut g, i, k);
                            proof {
                                assert(unres_in_fields(fdef, ds, j as int) == unres_in_fields(
                                    fdef,
                                    ds,
                                    j + 1 as int,
                                ));
                            }
                        },
                        None => {
                            proof {
                                assert(unres_in_fields(fdef, ds, j as int) == Some(nm@));
                                assert(unres_in_defs(ds, i as int) == Some(nm@));
                            }
                            return Err(Error::NameIsNotFound(nm.clone()));
                        },
                    }
                },
                TypeOrName::Type(_) => {
                    proof {
                        let (accA, nextA) = build_f(
                            fdef,
                            ds,
                            i as int,
                            j + 1 as int,
                            next as nat + 1,
                            graph_edges(g).insert((i as nat, next as nat)),
                        );
                        lemma_build_f_mono(
                            fdef,
                            ds,
                            i as int,
                            j + 1 as int,
                            next as nat + 1,
                            graph_edges(g).insert((i as nat, next as nat)),
                        );
                        lemma_build_d_mono(ds, i + 1 as int, nextA, accA);
                    }
                    let s = graph_add_node(&mut g);
                    graph_add_edge(&mut g, i, s);
                    next = next + 1;
                },
            }
            j += 1;
        }
        proof {
            assert(unres_in_fields(fields_of_def(ds[i as int].body), ds, m as int) is None);
            assert(unres_in_defs(ds, i as int) == unres_in_defs(ds, i + 1 as int));
        }
        i += 1;
    }
    proof {
        assert(graph_edges(g) == def_edges(ds));
        assert(graph_nodes(g) == def_nodes(ds));
    }
    Ok(g)
}

/// Analyze the definitions: resolve every reference, build the
/// dependency graph, and say whether any definition transitively refers
/// back to itself.
pub fn ring_checker(defs: &Vec<MacrodDef>) -> (r: Result<bool, Error>)
    requires
        def_nodes(view_defs(defs@)) <= usize::MAX,
    ensures
        (match r {
            Ok(b) => unres_in_defs(view_defs(defs@), 0) is None && b == has_cycle(
                def_edges(view_defs(defs@)),
            ),
            Err(Error::NameIsNotFound(n)) => unres_in_defs(view_defs(defs@), 0) == Some(n@),
        }),
{
    match ir2graph(defs) {
        Ok(g) => Ok(graph_is_cyclic(&g)),
        Err(e) => Err(e),
    }
}

} // verus!

verus! {

use crate::graph::lemma_mutual_edges_cycle;
use crate::graph::lemma_rank_no_cycle;

/// Two definitions that reference each other — the first referring to the
/// second's name and the second back to the first's — give a dependency
/// graph with a cycle, so the analysis reports one. An instance of
/// `lemma_cross_reference_cycle` with one reference each.
pub proof fn lemma_mutual_reference_cycle(ds: Seq<SpecMacro<SpecDef>>, na: Seq<char>, nb: Seq<char>)
    requires
        ds.len() == 2,
        na != nb,
        name_of_def(ds[0].body) == na,
        name_of_def(ds[1].body) == nb,
        fields_of_def(ds[0].body) == seq![SpecTypeOrName::Name(nb)],
        fields_of_def(ds[1].body) == seq![SpecTypeOrName::Name(na)],
    ensures
        has_cycle(def_edges(ds)),
{
    assert(ds.drop_last().len() == 1);
    assert(ds.drop_last().last() == ds[0]);
    assert(resolve(ds, nb) == Some(1int));
    assert(resolve(ds.drop_last(), na) == Some(0int));
    assert(resolve(ds, na) == Some(0int));
    lemma_cross_reference_cycle(ds, 0, 0, nb, 1, 0, na);
}

/// A chain of references with no back edge — the first definition
/// referring to the second's name, the second to the third's, the third
/// to nothing — gives a dependency graph without a cycle. An instance of
/// `lemma_forward_references_no_cycle`.
pub proof fn lemma_chain_no_cycle(ds: Seq<SpecMacro<SpecDef>>, nb: Seq<char>, nc: Seq<char>)
    requires
        ds.len() == 3,
        nb != nc,
        name_of_def(ds[1].body) == nb,
        name_of_def(ds[2].body) == nc,
        fields_of_def(ds[0].body) == seq![SpecTypeOrName::Name(nb)],
        fields_of_def(ds[1].body) == seq![SpecTypeOrName::Name(nc)],
        fields_of_def(ds[2].body) == Seq::<SpecTypeOrName>::empty(),
    ensures
        !has_cycle(def_edges(ds)),
{
    assert(ds.drop_last().len() == 2);
    assert(ds.drop_last().last() == ds[1]);
    assert(resolve(ds, nc) == Some(2int));
    assert(resolve(ds.drop_last(), nb) == Some(1int));
    assert(resolve(ds, nb) == Some(1int));
    assert forall|i: int, j: int|
        0 <= i < ds.len() && 0 <= j < fields_of_def(ds[i].body).len() implies #[trigger] ref_points_forward(
        ds,
        i,
        j,
    ) by {
        if i == 0 {
            assert(fields_of_def(ds[0].body)[j] == SpecTypeOrName::Name(nb));
        } else if i == 1 {
            assert(fields_of_def(ds[1].body)[j] == SpecTypeOrName::Name(nc));
        }
    }
    lemma_forward_references_no_cycle(ds);
}

} // verus!

verus! {

// ---------------------------------------------------------------------------
// Cycle detection in general: the two shapes above hold whatever else the
// definitions reference.
// ---------------------------------------------------------------------------
/// A resolved index is a definition index.
pub proof fn lemma_resolve_bounds(ds: Seq<SpecMacro<SpecDef>>, n: Seq<char>, k: int)
    requires
        resolve(ds, n) == Some(k),
    ensures
        0 <= k < ds.len(),
    decreases ds,
{
    if ds.len() > 0 && name_of_def(ds.last().body) != n {
        lemma_resolve_bounds(ds.drop_last(), n, k);
    }
}

/// Everything already folded in stays in.
proof fn lemma_build_f_acc_sub(
    fields: Seq<SpecTypeOrName>,
    ds: Seq<SpecMacro<SpecDef>>,
    i: int,
    j: int,
    next: nat,
    acc: Set<(nat, nat)>,
    e: (nat, nat),
)
    requires
        acc.contains(e),
    ensures
        build_f(fields, ds, i, j, next, acc).0.contains(e),
    decreases fields.len() - j,
{
    if 0 <= j && j < fields.len() {
        match fields[j] {
            SpecTypeOrName::Name(n) => match resolve(ds, n) {
                Some(k) => lemma_build_f_acc_sub(
                    fields,
                    ds,
                    i,
                    j + 1,
                    next,
                    acc.insert((i as nat, k as nat)),
                    e,
                ),
                None => lemma_build_f_acc_sub(fields, ds, i, j + 1, next, acc, e),
            },
            SpecTypeOrName::Type(_) => lemma_build_f_acc_sub(
                fields,
                ds,
                i,
                j + 1,
                next + 1,
                acc.insert((i as nat, next)),
                e,
            ),
        }
    }
}

proof fn lemma_build_d_acc_sub(
    ds: Seq<SpecMacro<SpecDef>>,
    i: int,
    next: nat,
    acc: Set<(nat, nat)>,
    e: (nat, nat),
)
    requires
        acc.contains(e),
    ensures
        build_d(ds, i, next, acc).0.contains(e),
    decreases ds.len() - i,
{
    if 0 <= i && i < ds.len() {
        let (acc2, next2) = build_f(fields_of_def(ds[i].body), ds, i, 0, next, acc);
        lemma_build_f_acc_sub(fields_of_def(ds[i].body), ds, i, 0, next, acc, e);
        lemma_build_d_acc_sub(ds, i + 1, next2, acc2, e);
    }
}

/// A resolved reference at field `j0` of definition `i` puts its edge
/// into the fold.
proof fn lemma_build_f_edge(
    fields: Seq<SpecTypeOrName>,
    ds: Seq<SpecMacro<SpecDef>>,
    i: int,
    j: int,
    j0: int,
    n: Seq<char>,
    k: int,
    next: nat,
    acc: Set<(nat, nat)>,
)
    requires
        0 <= j <= j0 < fields.len(),
        fields[j0] == SpecTypeOrName::Name(n),
        resolve(ds, n) == Some(k),
    ensures
        build_f(fields, ds, i, j, next, acc).0.contains((i as nat, k as nat)),
    decreases fields.len() - j,
{
    if j == j0 {
        lemma_build_f_acc_sub(
            fields,
            ds,
            i,
            j + 1,
            next,
            acc.insert((i as nat, k as nat)),
            (i as nat, k as nat),
        );
    } else {
        match fields[j] {
            SpecTypeOrName::Name(n2) => match resolve(ds, n2) {
                Some(k2) => lemma_build_f_edge(
                    fields,
                    ds,
                    i,
                    j + 1,
                    j0,
                    n,
                    k,
                    next,
                    acc.insert((i as nat, k2 as nat)),
                ),
                None => lemma_build_f_edge(fields, ds, i, j + 1, j0, n, k, next, acc),
            },
            SpecTypeOrName::Type(_) => lemma_build_f_edge(
                fields,
                ds,
                i,
                j + 1,
                j0,
                n,
                k,
                next + 1,
                acc.insert((i as nat, next)),
            ),
        }
    }
}

proof fn lemma_build_d_edge(
    ds: Seq<SpecMacro<SpecDef>>,
    i0: int,
    i: int,
    j0: int,
    n: Seq<char>,
    k: int,
    next: nat,
    acc: Set<(nat, nat)>,
)
    requires
        0 <= i0 <= i < ds.len(),
        0 <= j0 < fields_of_def(ds[i].body).len(),
        fields_of_def(ds[i].body)[j0] == SpecTypeOrName::Name(n),
        resolve(ds, n) == Some(k),
    ensures
        build_d(ds, i0, next, acc).0.contains((i as nat, k as nat)),
    decreases ds.len() - i0,
{
    let (acc2, next2) = build_f(fields_of_def(ds[i0].body), ds, i0, 0, next, acc);
    if i0 == i {
        lemma_build_f_edge(fields_of_def(ds[i].body), ds, i, 0, j0, n, k, next, acc);
        lemma_build_d_acc_sub(ds, i0 + 1, next2, acc2, (i as nat, k as nat));
    } else {
        lemma_build_d_edge(ds, i0 + 1, i, j0, n, k, next2, acc2);
    }
}

/// A resolved bare-name reference stands as an edge in the dependency
/// graph, whatever else the definitions reference.
pub proof fn lemma_reference_edge(
    ds: Seq<SpecMacro<SpecDef>>,
    i: int,
    j: int,
    n: Seq<char>,
    k: int,
)
    requires
        0 <= i < ds.len(),
        0 <= j < fields_of_def(ds[i].body).len(),
        fields_of_def(ds[i].body)[j] == SpecTypeOrName::Name(n),
        resolve(ds, n) == Some(k),
    ensures
        def_edges(ds).contains((i as nat, k as nat)),
{
    lemma_build_d_edge(ds, 0, i, j, n, k, ds.len() as nat, Set::empty());
}

/// Two definitions that each hold, anywhere among their references, a
/// bare name resolving to the other give a dependency graph with a cycle
/// — whatever else they or the remaining definitions reference. A
/// definition referring to its own name is the case with both ends equal.
pub proof fn lemma_cross_reference_cycle(
    ds: Seq<SpecMacro<SpecDef>>,
    i0: int,
    j0: int,
    n1: Seq<char>,
    i1: int,
    j1: int,
    n0: Seq<char>,
)
    requires
        0 <= i0 < ds.len(),
        0 <= i1 < ds.len(),
        0 <= j0 < fields_of_def(ds[i0].body).len(),
        0 <= j1 < fields_of_def(ds[i1].body).len(),
        fields_of_def(ds[i0].body)[j0] == SpecTypeOrName::Name(n1),
        resolve(ds, n1) == Some(i1),
        fields_of_def(ds[i1].body)[j1] == SpecTypeOrName::Name(n0),
        resolve(ds, n0) == Some(i0),
    ensures
        has_cycle(def_edges(ds)),
{
    lemma_reference_edge(ds, i0, j0, n1, i1);
    lemma_reference_edge(ds, i1, j1, n0, i0);
    lemma_mutual_edges_cycle(def_edges(ds), i0 as nat, i1 as nat);
}

/// Does the reference at field `j` of definition `i` point strictly
/// forward (or not resolve, or name no definition at all)?
pub open spec fn ref_points_forward(ds: Seq<SpecMacro<SpecDef>>, i: int, j: int) -> bool {
    match fields_of_def(ds[i].body)[j] {
        SpecTypeOrName::Name(n) => match resolve(ds, n) {
            Some(k) => k > i,
            None => true,
        },
        SpecTypeOrName::Type(_) => true,
    }
}

/// Every resolved bare-name reference points at a strictly later
/// definition.
pub open spec fn refs_point_forward(ds: Seq<SpecMacro<SpecDef>>) -> bool {
    forall|i: int, j: int|
        0 <= i < ds.len() && 0 <= j < fields_of_def(ds[i].body).len()
            ==> #[trigger] ref_points_forward(ds, i, j)
}

/// Folding the references of definition `i` adds only edges that go up:
/// to a later definition, or to a fresh node past every definition.
proof fn lemma_build_f_up(
    ds: Seq<SpecMacro<SpecDef>>,
    i: int,
    j: int,
    next: nat,
    acc: Set<(nat, nat)>,
    e: (nat, nat),
)
    requires
        refs_point_forward(ds),
        0 <= i < ds.len(),
        0 <= j,
        (i as nat) < next,
        build_f(fields_of_def(ds[i].body), ds, i, j, next, acc).0.contains(e),
    ensures
        acc.contains(e) || e.0 < e.1,
    decreases fields_of_def(ds[i].body).len() - j,
{
    let fields = fields_of_def(ds[i].body);
    if j < fields.len() {
        assert(ref_points_forward(ds, i, j));
        match fields[j] {
            SpecTypeOrName::Name(n) => match resolve(ds, n) {
                Some(k) => {
                    lemma_resolve_bounds(ds, n, k);
                    lemma_build_f_up(ds, i, j + 1, next, acc.insert((i as nat, k as nat)), e);
                },
                None => lemma_build_f_up(ds, i, j + 1, next, acc, e),
            },
            SpecTypeOrName::Type(_) => {
                lemma_build_f_up(ds, i, j + 1, next + 1, acc.insert((i as nat, next)), e);
            },
        }
    }
}

proof fn lemma_build_d_up(
    ds: Seq<SpecMacro<SpecDef>>,
    i0: int,
    next: nat,
    acc: Set<(nat, nat)>,
    e: (nat, nat),
)
    requires
        refs_point_forward(ds),
        0 <= i0,
        ds.len() <= next,
        build_d(ds, i0, next, acc).0.contains(e),
    ensures
        acc.contains(e) || e.0 < e.1,
    decreases ds.len() - i0,
{
    if i0 < ds.len() {
        let (acc2, next2) = build_f(fields_of_def(ds[i0].body), ds, i0, 0, next, acc);
        lemma_build_f_mono(fields_of_def(ds[i0].body), ds, i0, 0, next, acc);
        lemma_build_d_up(ds, i0 + 1, next2, acc2, e);
        if acc2.contains(e) {
            lemma_build_f_up(ds, i0, 0, next, acc, e);
        }
    }
}

/// If every resolved bare-name reference points at a strictly later
/// definition, the dependency graph has no cycle — whatever the
/// definitions hold besides (inline types included, since their fresh
/// nodes stand past every definition and have no outgoing edges).
pub proof fn lemma_forward_references_no_cycle(ds: Seq<SpecMacro<SpecDef>>)
    requires
        refs_point_forward(ds),
    ensures
        !has_cycle(def_edges(ds)),
{
    let rank = |x: nat| x;
    assert forall|e: (nat, nat)| def_edges(ds).contains(e) implies rank(e.0) < rank(e.1) by {
        lemma_build_d_up(ds, 0, ds.len() as nat, Set::empty(), e);
    }
    lemma_rank_no_cycle(def_edges(ds), rank);
}

} // verus!
