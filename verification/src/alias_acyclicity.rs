//! The types of a module whose aliases pass validation all canonicalize:
//! acyclic references between aliases bound every chain of resolutions.
use crate::ir::{Module, TypeAlias};
use crate::module_environment::bind_all;
use crate::recursive_type_alias_validator::{
    acyclic,
    alias_graph,
    alias_names,
    edges_from,
    last_index,
    recursive_alias_error,
    reference_targets,
    references,
    references_all,
};
use crate::type_canonicalizer::{
    aliases_acyclic,
    canonical_fuel,
    canonical_list_fuel,
    canonicalizable,
    members_fuel,
};
use crate::type_collector::{alias_entries, record_entries, records_of, types_of};
use crate::types::SpecType;
use vstd::prelude::*;

verus! {

proof fn lemma_last_index_prefix(names: Seq<Seq<char>>, name: Seq<char>, j: int)
    requires
        0 <= j < names.len(),
    ensures
        last_index(names.drop_last(), name, j) == last_index(names, name, j),
    decreases j,
{
    if j > 0 {
        lemma_last_index_prefix(names, name, j - 1);
    }
}

/// Looking a name up in the types of the aliases bound in order: the type of
/// the last alias of that name, else what the map held before.
proof fn lemma_bind_aliases(map: Map<Seq<char>, SpecType>, aliases: Seq<TypeAlias>, name: Seq<char>)
    ensures
        ({
            let bound = bind_all(map, alias_entries(aliases));
            match last_index(alias_names(aliases), name, aliases.len() as int) {
                Some(j) => bound.contains_key(name) && bound[name] == aliases[j].type_@,
                None => bound.contains_key(name) == map.contains_key(name) && (map.contains_key(name)
                    ==> bound[name] == map[name]),
            }
        }),
    decreases aliases.len(),
{
    if aliases.len() > 0 {
        let init = aliases.drop_last();
        assert(alias_entries(aliases).drop_last() =~= alias_entries(init));
        assert(alias_names(aliases).drop_last() =~= alias_names(init));
        lemma_bind_aliases(map, init, name);
        crate::recursive_type_alias_validator::lemma_last_index_step(
            alias_names(aliases),
            name,
            aliases.len() - 1,
        );
        if aliases.len() > 1 {
            lemma_last_index_prefix(alias_names(aliases), name, aliases.len() - 1);
        }
    }
}

/// The record types of a module's type definitions hold no references.
proof fn lemma_records_without_references(map: Map<Seq<char>, SpecType>, definitions: Seq<crate::ir::TypeDefinition>, name: Seq<char>)
    requires
        map.contains_key(name) ==> map[name] is Record,
    ensures
        bind_all(map, record_entries(definitions)).contains_key(name) ==> bind_all(
            map,
            record_entries(definitions),
        )[name] is Record,
    decreases definitions.len(),
{
    if definitions.len() > 0 {
        assert(record_entries(definitions).drop_last() =~= record_entries(definitions.drop_last()));
        lemma_records_without_references(map, definitions.drop_last(), name);
    }
}

proof fn lemma_references_with_position(type_: SpecType, position: crate::position::SpecPosition)
    ensures
        references(type_.with_position(position)) == references(type_),
{
}

/// An edge leads from the last alias of a name to the last alias of each
/// name that its type refers to.
proof fn lemma_reference_edge(aliases: Seq<TypeAlias>, s: int, name: Seq<char>, c: int)
    requires
        aliases.len() <= usize::MAX,
        0 <= s < aliases.len(),
        last_index(alias_names(aliases), aliases[s].name@, aliases.len() as int) == Some(s),
        references(aliases[s].type_@).contains(name),
        last_index(alias_names(aliases), name, aliases.len() as int) == Some(c),
    ensures
        0 <= c < aliases.len(),
        alias_graph(aliases)[s].contains(c as usize),
{
    crate::recursive_type_alias_validator::lemma_last_index_bounds(alias_names(aliases), name, aliases.len() as int);
    assert((c as usize) as int == c);
    assert(reference_targets(aliases, s).contains(c as usize));
    assert(edges_from(aliases, aliases.len() as int, s).contains(c as usize));
}

/// Every alias that some names refer to ranks at least `fuel - 2` below
/// `top`.
pub open spec fn fuel_covers(
    names: Set<Seq<char>>,
    aliases: Seq<TypeAlias>,
    rank: Seq<int>,
    top: int,
    fuel: nat,
) -> bool {
    forall|name: Seq<char>|
        #[trigger] names.contains(name) ==> match last_index(alias_names(aliases), name, aliases.len() as int) {
            Some(b) => top - rank[b] + 2 <= fuel,
            None => true,
        }
}

proof fn lemma_fuel_covers_subset(
    names: Set<Seq<char>>,
    more: Set<Seq<char>>,
    aliases: Seq<TypeAlias>,
    rank: Seq<int>,
    top: int,
    fuel: nat,
)
    requires
        names.subset_of(more),
        fuel_covers(more, aliases, rank, top, fuel),
    ensures
        fuel_covers(names, aliases, rank, top, fuel),
{
    assert forall|name: Seq<char>| #[trigger] names.contains(name) implies match last_index(
        alias_names(aliases),
        name,
        aliases.len() as int,
    ) {
        Some(b) => top - rank[b] + 2 <= fuel,
        None => true,
    } by {
        assert(more.contains(name));
    }
}

/// Alias references ranked below `top` by a ranking that every edge
/// increases: enough fuel for a type is two more than the distance from
/// `top` of the rank of every alias it refers to.
proof fn lemma_enough_fuel(type_: SpecType, module: Module, rank: Seq<int>, top: int, fuel: nat)
    requires
        module.type_aliases@.len() <= usize::MAX,
        rank.len() == module.type_aliases@.len(),
        forall|a: int, b: usize|
            0 <= a < module.type_aliases@.len() && #[trigger] alias_graph(module.type_aliases@)[a].contains(b)
                ==> b < module.type_aliases@.len() && rank[a] < rank[b as int],
        forall|b: int| 0 <= b < rank.len() ==> #[trigger] rank[b] <= top,
        fuel >= 1,
        fuel_covers(references(type_), module.type_aliases@, rank, top, fuel),
    ensures
        canonical_fuel(type_, types_of(module), fuel) is Some,
        members_fuel(type_, types_of(module), fuel) is Some,
    decreases fuel, type_,
{
    let aliases = module.type_aliases@;
    let names = alias_names(aliases);
    let n = aliases.len() as int;
    let types = types_of(module);
    match type_ {
        SpecType::Function { arguments, result, .. } => {
            lemma_fuel_covers_subset(references_all(arguments), references(type_), aliases, rank, top, fuel);
            lemma_fuel_covers_subset(references(*result), references(type_), aliases, rank, top, fuel);
            lemma_enough_fuel_list(arguments, module, rank, top, fuel);
            lemma_enough_fuel(*result, module, rank, top, fuel);
            assert(canonical_list_fuel(arguments, types, fuel) is Some);
            assert(canonical_fuel(*result, types, fuel) is Some);
            assert(canonical_fuel(type_, types, fuel) is Some);
        },
        SpecType::List { element, .. } => {
            lemma_enough_fuel(*element, module, rank, top, fuel);
            assert(canonical_fuel(type_, types, fuel) is Some);
        },
        SpecType::Mapping { key, value, .. } => {
            lemma_fuel_covers_subset(references(*key), references(type_), aliases, rank, top, fuel);
            lemma_fuel_covers_subset(references(*value), references(type_), aliases, rank, top, fuel);
            lemma_enough_fuel(*key, module, rank, top, fuel);
            lemma_enough_fuel(*value, module, rank, top, fuel);
            assert(canonical_fuel(type_, types, fuel) is Some);
        },
        SpecType::Union { lhs, rhs, .. } => {
            lemma_fuel_covers_subset(references(*lhs), references(type_), aliases, rank, top, fuel);
            lemma_fuel_covers_subset(references(*rhs), references(type_), aliases, rank, top, fuel);
            lemma_enough_fuel(*lhs, module, rank, top, fuel);
            lemma_enough_fuel(*rhs, module, rank, top, fuel);
            assert(canonical_fuel(type_, types, fuel) is Some);
            assert(members_fuel(type_, types, fuel) is Some);
        },
        SpecType::Reference { name, position } => {
            assert(references(type_).contains(name));
            lemma_bind_aliases(records_of(module), aliases, name);
            lemma_records_without_references(Map::empty(), module.type_definitions@, name);
            if types.contains_key(name) {
                let resolved = types[name].with_position(position);
                lemma_references_with_position(types[name], position);
                match last_index(names, name, n) {
                    Some(b) => {
                        crate::recursive_type_alias_validator::lemma_last_index_bounds(names, name, n);
                        assert(names[b] == name);
                        assert(last_index(names, aliases[b].name@, n) == Some(b));
                        assert(rank[b] <= top);
                        assert forall|other: Seq<char>| #[trigger] references(resolved).contains(other) implies match last_index(
                            names,
                            other,
                            n,
                        ) {
                            Some(c) => top - rank[c] + 2 <= (fuel - 1) as nat,
                            None => true,
                        } by {
                            if let Some(c) = last_index(names, other, n) {
                                lemma_reference_edge(aliases, b, other, c);
                                assert(alias_graph(aliases)[b].contains(c as usize));
                                assert(rank[b] < rank[c]);
                            }
                        }
                        lemma_enough_fuel(resolved, module, rank, top, (fuel - 1) as nat);
                    },
                    None => {
                        assert(resolved is Record);
                    },
                }
            }
        },
        _ => {},
    }
}

proof fn lemma_enough_fuel_list(types_: Seq<SpecType>, module: Module, rank: Seq<int>, top: int, fuel: nat)
    requires
        module.type_aliases@.len() <= usize::MAX,
        rank.len() == module.type_aliases@.len(),
        forall|a: int, b: usize|
            0 <= a < module.type_aliases@.len() && #[trigger] alias_graph(module.type_aliases@)[a].contains(b)
                ==> b < module.type_aliases@.len() && rank[a] < rank[b as int],
        forall|b: int| 0 <= b < rank.len() ==> #[trigger] rank[b] <= top,
        fuel >= 1,
        fuel_covers(references_all(types_), module.type_aliases@, rank, top, fuel),
    ensures
        canonical_list_fuel(types_, types_of(module), fuel) is Some,
    decreases fuel, types_,
{
    if types_.len() > 0 {
        let aliases = module.type_aliases@;
        lemma_fuel_covers_subset(references_all(types_.drop_last()), references_all(types_), aliases, rank, top, fuel);
        lemma_fuel_covers_subset(references(types_.last()), references_all(types_), aliases, rank, top, fuel);
        lemma_enough_fuel_list(types_.drop_last(), module, rank, top, fuel);
        lemma_enough_fuel(types_.last(), module, rank, top, fuel);
    }
}

/// The greatest of some integers, or zero for none.
pub open spec fn greatest(values: Seq<int>) -> int
    decreases values.len(),
{
    if values.len() == 0 {
        0
    } else if greatest(values.drop_last()) < values.last() {
        values.last()
    } else {
        greatest(values.drop_last())
    }
}

/// The least of some integers, or zero for none.
pub open spec fn least(values: Seq<int>) -> int
    decreases values.len(),
{
    if values.len() == 0 {
        0
    } else if values.last() < least(values.drop_last()) {
        values.last()
    } else {
        least(values.drop_last())
    }
}

proof fn lemma_bounds(values: Seq<int>)
    ensures
        forall|i: int| 0 <= i < values.len() ==> least(values) <= #[trigger] values[i] <= greatest(values),
    decreases values.len(),
{
    if values.len() > 0 {
        lemma_bounds(values.drop_last());
        assert forall|i: int| 0 <= i < values.len() implies least(values) <= #[trigger] values[i] <= greatest(
            values,
        ) by {
            if i < values.len() - 1 {
                assert(values.drop_last()[i] == values[i]);
            }
        }
    }
}

/// Where the type aliases of a module refer to one another without a
/// cycle, every type canonicalizes against the types that the module
/// names: chains of alias references end.
pub proof fn law_validated_aliases_canonicalize(module: Module)
    requires
        recursive_alias_error(module) is None,
    ensures
        aliases_acyclic(types_of(module)),
{
    let aliases = module.type_aliases@;
    assert(aliases.len() == module.type_aliases.len());
    let successors = alias_graph(aliases);
    assert(acyclic(successors));
    let rank = choose|rank: Seq<int>|
        #![trigger rank.len()]
        rank.len() == successors.len() && forall|a: int, b: usize|
            0 <= a < successors.len() && #[trigger] successors[a].contains(b) ==> b < successors.len()
                && rank[a] < rank[b as int];
    lemma_bounds(rank);
    let top = greatest(rank);
    let fuel = (top - least(rank) + 2) as nat;
    assert forall|type_: SpecType| #[trigger] canonicalizable(type_, types_of(module)) by {
        assert forall|name: Seq<char>| #[trigger] references(type_).contains(name) implies match last_index(
            alias_names(aliases),
            name,
            aliases.len() as int,
        ) {
            Some(b) => top - rank[b] + 2 <= fuel,
            None => true,
        } by {
            if let Some(b) = last_index(alias_names(aliases), name, aliases.len() as int) {
                crate::recursive_type_alias_validator::lemma_last_index_bounds(
                    alias_names(aliases),
                    name,
                    aliases.len() as int,
                );
                assert(least(rank) <= rank[b]);
            }
        }
        lemma_enough_fuel(type_, module, rank, top, fuel);
    }
}

} // verus!
