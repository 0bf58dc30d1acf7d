//! Validation that no type alias refers to itself, directly or through
//! other aliases: the graph of references between the aliases of a module
//! must have no cycle.
use crate::error::{AnalysisError, SpecAnalysisError};
use crate::ir::{Module, TypeAlias};
use crate::tables::{name_index_map_contents, name_set_contents, NameIndexMap, NameSet};
use crate::types::{SpecType, Type};
use vstd::prelude::*;

verus! {

/// petgraph's `Graph`, whose contents the graph wrappers below name.
#[verifier::external_type_specification]
#[verifier::external_body]
#[verifier::reject_recursive_types(N)]
#[verifier::reject_recursive_types(E)]
#[verifier::reject_recursive_types(Ty)]
#[verifier::reject_recursive_types(Ix)]
pub struct ExGraph<N, E, Ty, Ix>(petgraph::Graph<N, E, Ty, Ix>);

/// petgraph's marker for directed graphs.
#[verifier::external_type_specification]
#[verifier::external_body]
pub struct ExDirected(petgraph::Directed);

/// What a petgraph graph of names holds: for each node, the nodes that its
/// edges lead to.
pub uninterp spec fn graph_successors(graph: petgraph::Graph<String, (), petgraph::Directed, usize>) -> Seq<
    Set<usize>,
>;

/// A directed graph whose nodes are numbered from zero, in a petgraph
/// `Graph` with `usize` indices, so that no limit on the number of nodes or
/// edges applies.
struct AliasGraph {
    graph: petgraph::Graph<String, (), petgraph::Directed, usize>,
}

/// A numbering of the nodes that every edge increases: the graph has no
/// cycle, a self loop included.
pub open spec fn acyclic(successors: Seq<Set<usize>>) -> bool {
    exists|rank: Seq<int>|
        #![trigger rank.len()]
        rank.len() == successors.len() && forall|a: int, b: usize|
            0 <= a < successors.len() && #[trigger] successors[a].contains(b) ==> b < successors.len()
                && rank[a] < rank[b as int]
}

impl AliasGraph {
    /// An empty graph, made by `Graph::default`.
    #[verifier::external_body]
    fn new() -> (graph: AliasGraph)
        ensures
            graph_successors(graph.graph) == Seq::<Set<usize>>::empty(),
    {
        AliasGraph { graph: petgraph::Graph::default() }
    }

    /// `Graph::add_node`: a node without edges, numbered after the others;
    /// its number.
    #[verifier::external_body]
    fn add_node(&mut self, name: String) -> (node: usize)
        ensures
            node == graph_successors(old(self).graph).len(),
            graph_successors(final(self).graph) == graph_successors(old(self).graph).push(Set::empty()),
    {
        self.graph.add_node(name).index()
    }

    /// `Graph::add_edge`: an edge from `from` to `to`.
    #[verifier::external_body]
    fn add_edge(&mut self, from: usize, to: usize)
        requires
            from < graph_successors(old(self).graph).len(),
            to < graph_successors(old(self).graph).len(),
        ensures
            graph_successors(final(self).graph) == graph_successors(old(self).graph).update(
                from as int,
                graph_successors(old(self).graph)[from as int].insert(to),
            ),
    {
        self.graph.add_edge(petgraph::graph::NodeIndex::new(from), petgraph::graph::NodeIndex::new(to), ());
    }

    /// `algo::toposort` succeeds: whether the graph has no cycle.
    #[verifier::external_body]
    fn is_acyclic(&self) -> (acyclic_graph: bool)
        ensures
            acyclic_graph == acyclic(graph_successors(self.graph)),
    {
        petgraph::algo::toposort(&self.graph, None).is_ok()
    }
}


/// The names of the references in a type.
pub open spec fn references(type_: SpecType) -> Set<Seq<char>>
    decreases type_,
{
    match type_ {
        SpecType::Function { arguments, result, .. } => references_all(arguments).union(
            references(*result),
        ),
        SpecType::List { element, .. } => references(*element),
        SpecType::Mapping { key, value, .. } => references(*key).union(references(*value)),
        SpecType::Union { lhs, rhs, .. } => references(*lhs).union(references(*rhs)),
        SpecType::Reference { name, .. } => set![name],
        _ => Set::empty(),
    }
}

/// The names of the references in some types.
pub open spec fn references_all(types: Seq<SpecType>) -> Set<Seq<char>>
    decreases types,
{
    if types.len() == 0 {
        Set::empty()
    } else {
        references_all(types.drop_last()).union(references(types.last()))
    }
}

/// The index of the last of the first `j` names that is `name`, if any.
pub open spec fn last_index(names: Seq<Seq<char>>, name: Seq<char>, j: int) -> Option<int>
    decreases j,
{
    if j <= 0 {
        None
    } else if names[j - 1] == name {
        Some(j - 1)
    } else {
        last_index(names, name, j - 1)
    }
}

/// The names of some type aliases.
pub open spec fn alias_names(aliases: Seq<TypeAlias>) -> Seq<Seq<char>> {
    aliases.map_values(|alias: TypeAlias| alias.name@)
}

/// The nodes that the references of the alias at `a` lead to: for each
/// reference that names an alias, the last alias of that name.
pub open spec fn reference_targets(aliases: Seq<TypeAlias>, a: int) -> Set<usize> {
    Set::new(
        |k: usize|
            exists|name: Seq<char>|
                #[trigger] references(aliases[a].type_@).contains(name) && last_index(
                    alias_names(aliases),
                    name,
                    aliases.len() as int,
                ) == Some(k as int),
    )
}

/// The edges from node `s` that the first `i` aliases give: each alias is
/// the node of the last alias of its name.
pub open spec fn edges_from(aliases: Seq<TypeAlias>, i: int, s: int) -> Set<usize> {
    Set::new(
        |k: usize|
            exists|a: int|
                0 <= a < i && last_index(alias_names(aliases), aliases[a].name@, aliases.len() as int)
                    == Some(s) && #[trigger] reference_targets(aliases, a).contains(k),
    )
}

/// The graph of references between the aliases of a module: a node for
/// each alias, and an edge from an alias to each alias that its type
/// refers to by name, the last alias of a name standing for all of them.
pub open spec fn alias_graph(aliases: Seq<TypeAlias>) -> Seq<Set<usize>> {
    Seq::new(aliases.len(), |s: int| edges_from(aliases, aliases.len() as int, s))
}

/// The error for a module whose type aliases refer to themselves.
pub open spec fn recursive_alias_error(module: Module) -> Option<SpecAnalysisError> {
    if acyclic(alias_graph(module.type_aliases@)) {
        None
    } else {
        Some(SpecAnalysisError::RecursiveTypeAlias(module.position@))
    }
}

pub proof fn lemma_last_index_step(names: Seq<Seq<char>>, name: Seq<char>, j: int)
    requires
        0 <= j < names.len(),
    ensures
        last_index(names, name, j + 1) == if names[j] == name {
            Some(j)
        } else {
            last_index(names, name, j)
        },
        last_index(names, name, j) matches Some(i) ==> 0 <= i < j && names[i] == name,
    decreases j,
{
    if j > 0 {
        lemma_last_index_step(names, name, j - 1);
    }
}

pub proof fn lemma_last_index_bounds(names: Seq<Seq<char>>, name: Seq<char>, j: int)
    requires
        0 <= j <= names.len(),
    ensures
        last_index(names, name, j) matches Some(i) ==> 0 <= i < j && names[i] == name,
    decreases j,
{
    if j > 0 {
        lemma_last_index_bounds(names, name, j - 1);
    }
}

/// Collects the names of the references in a type.
fn collect_references(type_: &Type, names: &mut NameSet)
    ensures
        name_set_contents(*final(names)) == name_set_contents(*old(names)).union(references(type_@)),
    decreases type_,
{
    match type_ {
        Type::Function { arguments, result, .. } => {
            collect_all_references(arguments, names);
            collect_references(result, names);
            proof {
                assert(name_set_contents(*names) =~= name_set_contents(*old(names)).union(
                    references(type_@),
                ));
            }
        },
        Type::List { element, .. } => collect_references(element, names),
        Type::Mapping { key, value, .. } => {
            collect_references(key, names);
            collect_references(value, names);
            proof {
                assert(name_set_contents(*names) =~= name_set_contents(*old(names)).union(
                    references(type_@),
                ));
            }
        },
        Type::Union { lhs, rhs, .. } => {
            collect_references(lhs, names);
            collect_references(rhs, names);
            proof {
                assert(name_set_contents(*names) =~= name_set_contents(*old(names)).union(
                    references(type_@),
                ));
            }
        },
        Type::Reference { name, .. } => {
            names.insert(name.clone());
            proof {
                assert(name_set_contents(*names) =~= name_set_contents(*old(names)).union(
                    references(type_@),
                ));
            }
        },
        _ => {
            proof {
                assert(name_set_contents(*names) =~= name_set_contents(*old(names)).union(
                    references(type_@),
                ));
            }
        },
    }
}

fn collect_all_references(types: &Vec<Type>, names: &mut NameSet)
    ensures
        name_set_contents(*final(names)) == name_set_contents(*old(names)).union(
            references_all(crate::types::view_types(types@)),
        ),
    decreases types,
{
    let ghost all = crate::types::view_types(types@);
    proof {
        crate::types::lemma_view_types(types@);
    }
    let ghost start = name_set_contents(*names);
    let mut i: usize = 0;
    while i < types.len()
        invariant
            i <= types.len(),
            all == crate::types::view_types(types@),
            all.len() == types@.len(),
            forall|k: int| 0 <= k < types@.len() ==> #[trigger] all[k] == types@[k]@,
            start == name_set_contents(*old(names)),
            name_set_contents(*names) == start.union(references_all(all.take(i as int))),
        decreases types.len() - i,
    {
        proof {
            assert(decreases_to!(types => types@[i as int]));
            assert(all.take(i + 1).drop_last() =~= all.take(i as int));
        }
        collect_references(&types[i], names);
        proof {
            assert(name_set_contents(*names) =~= start.union(references_all(all.take(i + 1))));
        }
        i = i + 1;
    }
    proof {
        assert(all.take(i as int) =~= all);
    }
}

/// Validates that no type alias of a module refers to itself, directly or
/// through other aliases.
pub fn validate(module: &Module) -> (result: Result<(), AnalysisError>)
    ensures
        match result {
            Ok(()) => recursive_alias_error(*module) is None,
            Err(error) => recursive_alias_error(*module) == Some(error@),
        },
{
    let aliases = &module.type_aliases;
    let ghost all = aliases@;
    let ghost names = alias_names(all);
    let ghost n = all.len() as int;
    let mut graph = AliasGraph::new();
    let mut indices = NameIndexMap::new();
    let mut i: usize = 0;
    while i < aliases.len()
        invariant
            i <= aliases.len(),
            all == aliases@,
            names == alias_names(all),
            n == all.len(),
            graph_successors(graph.graph).len() == i,
            forall|s: int| 0 <= s < i ==> #[trigger] graph_successors(graph.graph)[s] == Set::<usize>::empty(),
            forall|name: Seq<char>|
                #[trigger] name_index_map_contents(indices).contains_key(name) <==> last_index(
                    names,
                    name,
                    i as int,
                ) is Some,
            forall|name: Seq<char>|
                #[trigger] name_index_map_contents(indices).contains_key(name) ==> last_index(
                    names,
                    name,
                    i as int,
                ) == Some(name_index_map_contents(indices)[name] as int),
        decreases aliases.len() - i,
    {
        let node = graph.add_node(aliases[i].name.clone());
        indices.insert(aliases[i].name.clone(), node);
        proof {
            assert(names[i as int] == aliases@[i as int].name@);
            assert forall|name: Seq<char>|
                #[trigger] name_index_map_contents(indices).contains_key(name) <==> last_index(
                    names,
                    name,
                    i + 1,
                ) is Some by {
                lemma_last_index_step(names, name, i as int);
            }
            assert forall|name: Seq<char>|
                #[trigger] name_index_map_contents(indices).contains_key(name) implies last_index(
                    names,
                    name,
                    i + 1,
                ) == Some(name_index_map_contents(indices)[name] as int) by {
                lemma_last_index_step(names, name, i as int);
            }
        }
        i = i + 1;
    }
    let mut i: usize = 0;
    while i < aliases.len()
        invariant
            i <= aliases.len(),
            all == aliases@,
            names == alias_names(all),
            n == all.len(),
            graph_successors(graph.graph).len() == n,
            forall|s: int|
                0 <= s < n ==> #[trigger] graph_successors(graph.graph)[s] == edges_from(all, i as int, s),
            forall|name: Seq<char>|
                #[trigger] name_index_map_contents(indices).contains_key(name) <==> last_index(
                    names,
                    name,
                    n,
                ) is Some,
            forall|name: Seq<char>|
                #[trigger] name_index_map_contents(indices).contains_key(name) ==> last_index(
                    names,
                    name,
                    n,
                ) == Some(name_index_map_contents(indices)[name] as int),
        decreases aliases.len() - i,
    {
        let alias = &aliases[i];
        proof {
            assert(names[i as int] == alias.name@);
            lemma_last_index_step(names, alias.name@, i as int);
            lemma_last_index_bounds(names, alias.name@, n);
            assert(last_index(names, alias.name@, i + 1) is Some);
            lemma_last_index_monotonic(names, alias.name@, i + 1, n);
        }
        let from = match indices.get(alias.name.as_str()) {
            Some(from) => from,
            None => 0,
        };
        proof {
            lemma_last_index_bounds(names, alias.name@, n);
        }
        let mut references_of_alias = NameSet::new();
        collect_references(&alias.type_, &mut references_of_alias);
        let referenced = references_of_alias.names();
        let ghost before = graph_successors(graph.graph);
        let mut j: usize = 0;
        while j < referenced.len()
            invariant
                j <= referenced.len(),
                all == aliases@,
                names == alias_names(all),
                n == all.len(),
                0 <= i < n,
                0 <= from < n,
                last_index(names, all[i as int].name@, n) == Some(from as int),
                name_set_contents(references_of_alias) == references(all[i as int].type_@),
                forall|k: int|
                    0 <= k < referenced@.len() ==> name_set_contents(references_of_alias).contains(
                        #[trigger] referenced@[k]@,
                    ),
                graph_successors(graph.graph).len() == n,
                forall|s: int|
                    0 <= s < n && s != from ==> #[trigger] graph_successors(graph.graph)[s] == before[s],
                graph_successors(graph.graph)[from as int] == before[from as int].union(
                    Set::new(
                        |k: usize|
                            exists|q: int|
                                0 <= q < j && last_index(names, #[trigger] referenced@[q]@, n) == Some(
                                    k as int,
                                ),
                    ),
                ),
                forall|name: Seq<char>|
                    #[trigger] name_index_map_contents(indices).contains_key(name) <==> last_index(
                        names,
                        name,
                        n,
                    ) is Some,
                forall|name: Seq<char>|
                    #[trigger] name_index_map_contents(indices).contains_key(name) ==> last_index(
                        names,
                        name,
                        n,
                    ) == Some(name_index_map_contents(indices)[name] as int),
            decreases referenced.len() - j,
        {
            let ghost set_before = graph_successors(graph.graph)[from as int];
            match indices.get(referenced[j].as_str()) {
                Some(to) => {
                    proof {
                        lemma_last_index_bounds(names, referenced@[j as int]@, n);
                    }
                    graph.add_edge(from, to);
                    proof {
                        assert(graph_successors(graph.graph)[from as int] =~= before[from as int].union(
                            Set::new(
                                |k: usize|
                                    exists|q: int|
                                        0 <= q < j + 1 && last_index(
                                            names,
                                            #[trigger] referenced@[q]@,
                                            n,
                                        ) == Some(k as int),
                            ),
                        ));
                    }
                },
                None => {
                    proof {
                        assert(graph_successors(graph.graph)[from as int] =~= before[from as int].union(
                            Set::new(
                                |k: usize|
                                    exists|q: int|
                                        0 <= q < j + 1 && last_index(
                                            names,
                                            #[trigger] referenced@[q]@,
                                            n,
                                        ) == Some(k as int),
                            ),
                        ));
                    }
                },
            }
            j = j + 1;
        }
        proof {
            assert forall|s: int| 0 <= s < n implies #[trigger] graph_successors(graph.graph)[s]
                == edges_from(all, i + 1, s) by {
                assert(graph_successors(graph.graph)[s] =~= edges_from(all, i + 1, s)) by {
                    assert forall|k: usize| #[trigger] edges_from(all, i + 1, s).contains(k)
                        implies graph_successors(graph.graph)[s].contains(k) by {
                        let a = choose|a: int|
                            0 <= a < i + 1 && last_index(alias_names(all), all[a].name@, n) == Some(s)
                                && #[trigger] reference_targets(all, a).contains(k);
                        if a < i {
                            assert(edges_from(all, i as int, s).contains(k));
                        } else {
                            let name = choose|name: Seq<char>|
                                #[trigger] references(all[a].type_@).contains(name) && last_index(
                                    alias_names(all),
                                    name,
                                    n,
                                ) == Some(k as int);
                            let q = choose|q: int| 0 <= q < referenced@.len() && #[trigger] referenced@[q]@ == name;
                            assert(last_index(names, referenced@[q]@, n) == Some(k as int));
                        }
                    }
                    assert forall|k: usize| #[trigger] graph_successors(graph.graph)[s].contains(k)
                        implies edges_from(all, i + 1, s).contains(k) by {
                        if before[s].contains(k) {
                            let a = choose|a: int|
                                0 <= a < i && last_index(alias_names(all), all[a].name@, n) == Some(s)
                                    && #[trigger] reference_targets(all, a).contains(k);
                            assert(0 <= a < i + 1);
                        } else {
                            let q = choose|q: int|
                                0 <= q < referenced@.len() && last_index(
                                    names,
                                    #[trigger] referenced@[q]@,
                                    n,
                                ) == Some(k as int);
                            assert(references(all[i as int].type_@).contains(referenced@[q]@));
                            assert(reference_targets(all, i as int).contains(k));
                        }
                    }
                }
            }
        }
        i = i + 1;
    }
    proof {
        assert(graph_successors(graph.graph) =~= alias_graph(all));
    }
    if graph.is_acyclic() {
        Ok(())
    } else {
        Err(AnalysisError::RecursiveTypeAlias(module.position.copy()))
    }
}

proof fn lemma_last_index_monotonic(names: Seq<Seq<char>>, name: Seq<char>, j: int, k: int)
    requires
        0 <= j <= k <= names.len(),
        last_index(names, name, j) is Some,
    ensures
        last_index(names, name, k) is Some,
    decreases k - j,
{
    if j < k {
        lemma_last_index_step(names, name, j);
        lemma_last_index_monotonic(names, name, j + 1, k);
    }
}
} // verus!
