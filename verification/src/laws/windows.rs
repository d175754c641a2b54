//! Laws on what Windows plugins share: whom code belongs to, and what a scan of the pools
//! finds.

use crate::plugins::windows::{attributed, with_names, with_owners, AttributionView};
use crate::renderers::Cell;
use crate::symbols::windows::{
    admitted, names_at, owners_of, tagged, CodeModule, NamedPlace, OwnerView, PoolConstraint, PoolHit,
};
use vstd::prelude::*;

verus! {

/// Whether an address lies in a module: at its start or behind it, and in front of its
/// end.
pub open spec fn lies_in(address: u64, module: CodeModule) -> bool {
    module.start <= address < module.start + module.size
}

proof fn lemma_names(symbols: Seq<NamedPlace>, address: u64, i: int)
    ensures
        0 <= i < symbols.len() && symbols[i].address == address ==> names_at(
            symbols,
            address,
        ).contains(symbols[i].name@),
        (forall|j: int| 0 <= j < symbols.len() ==> (#[trigger] symbols[j]).address != address)
            ==> names_at(symbols, address).len() == 0,
        forall|k: int|
            0 <= k < names_at(symbols, address).len() ==> exists|j: int|
                0 <= j < symbols.len() && (#[trigger] symbols[j]).address == address
                    && symbols[j].name@ == #[trigger] names_at(symbols, address)[k],
    decreases symbols.len(),
{
    if symbols.len() > 0 {
        let less = symbols.drop_last();
        lemma_names(less, address, i);
        let before = names_at(less, address);
        let names = names_at(symbols, address);
        if 0 <= i < symbols.len() && symbols[i].address == address {
            if i < less.len() {
                assert(less[i] == symbols[i]);
                let k = choose|k: int| 0 <= k < before.len() && before[k] == symbols[i].name@;
                assert(names[k] == symbols[i].name@);
            } else {
                assert(names[before.len() as int] == symbols[i].name@);
            }
        }
        if forall|j: int| 0 <= j < symbols.len() ==> (#[trigger] symbols[j]).address != address {
            assert forall|j: int| 0 <= j < less.len() implies (#[trigger] less[j]).address
                != address by {
                assert(symbols[j].address != address);
            }
            assert(symbols[symbols.len() - 1].address != address);
        }
        assert forall|k: int| 0 <= k < names.len() implies exists|j: int|
            0 <= j < symbols.len() && (#[trigger] symbols[j]).address == address && symbols[j].name@
                == #[trigger] names[k] by {
            if k < before.len() {
                let j = choose|j: int|
                    0 <= j < less.len() && (#[trigger] less[j]).address == address && less[j].name@
                        == before[k];
                assert(symbols[j].name@ == names[k]);
            } else {
                assert(symbols[symbols.len() - 1].name@ == names[k]);
            }
        }
    }
}

proof fn lemma_owners(modules: Seq<CodeModule>, address: u64, m: int)
    ensures
        0 <= m < modules.len() && lies_in(address, modules[m]) ==> owners_of(
            modules,
            address,
        ).contains(
            OwnerView {
                module: modules[m].name@,
                symbols: names_at(modules[m].symbols@, address),
            },
        ),
        forall|k: int|
            0 <= k < owners_of(modules, address).len() ==> exists|j: int|
                0 <= j < modules.len() && lies_in(address, #[trigger] modules[j])
                    && #[trigger] owners_of(modules, address)[k] == (OwnerView {
                    module: modules[j].name@,
                    symbols: names_at(modules[j].symbols@, address),
                }),
    decreases modules.len(),
{
    if modules.len() > 0 {
        let less = modules.drop_last();
        lemma_owners(less, address, m);
        let before = owners_of(less, address);
        let owners = owners_of(modules, address);
        if 0 <= m < modules.len() && lies_in(address, modules[m]) {
            let wanted = OwnerView {
                module: modules[m].name@,
                symbols: names_at(modules[m].symbols@, address),
            };
            if m < less.len() {
                assert(less[m] == modules[m]);
                let k = choose|k: int| 0 <= k < before.len() && before[k] == wanted;
                assert(owners[k] == wanted);
            } else {
                assert(owners[before.len() as int] == wanted);
            }
        }
        assert forall|k: int| 0 <= k < owners.len() implies exists|j: int|
            0 <= j < modules.len() && lies_in(address, #[trigger] modules[j]) && #[trigger] owners[k]
                == (OwnerView {
                module: modules[j].name@,
                symbols: names_at(modules[j].symbols@, address),
            }) by {
            if k < before.len() {
                let j = choose|j: int|
                    0 <= j < less.len() && lies_in(address, #[trigger] less[j]) && before[k] == (
                    OwnerView {
                        module: less[j].name@,
                        symbols: names_at(less[j].symbols@, address),
                    });
                assert(modules[j] == less[j]);
            } else {
                assert(lies_in(address, modules[modules.len() - 1]));
            }
        }
    }
}

proof fn lemma_with_names(list: Seq<AttributionView>, owner: OwnerView, count: int, s: int)
    requires
        count <= owner.symbols.len(),
    ensures
        with_names(list, owner, count).len() == list.len() + if count < 0 {
            0
        } else {
            count
        },
        forall|i: int| 0 <= i < list.len() ==> #[trigger] with_names(list, owner, count)[i] == list[i],
        forall|i: int|
            list.len() <= i < with_names(list, owner, count).len() ==> #[trigger] with_names(
                list,
                owner,
                count,
            )[i].module == Cell::Text(owner.module),
        0 <= s < count ==> with_names(list, owner, count)[list.len() + s] == (AttributionView {
            module: Cell::Text(owner.module),
            symbol: Cell::Text(owner.symbols[s]),
        }),
    decreases count,
{
    if count > 0 {
        lemma_with_names(list, owner, count - 1, s);
    }
}

proof fn lemma_with_owners(owners: Seq<OwnerView>, count: int, k: int, s: int)
    requires
        count <= owners.len(),
    ensures
        ({
            let list = with_owners(Seq::empty(), owners, count);
            &&& count > 0 ==> list.len() > 0
            &&& 0 <= k < count && owners[k].symbols.len() == 0 ==> list.contains(
                AttributionView {
                    module: Cell::Text(owners[k].module),
                    symbol: Cell::not_available(),
                },
            )
            &&& 0 <= k < count && 0 <= s < owners[k].symbols.len() ==> list.contains(
                AttributionView {
                    module: Cell::Text(owners[k].module),
                    symbol: Cell::Text(owners[k].symbols[s]),
                },
            )
            &&& forall|i: int|
                0 <= i < list.len() ==> exists|j: int|
                    0 <= j < count && (#[trigger] list[i]).module == Cell::Text(
                        (#[trigger] owners[j]).module,
                    )
        }),
    decreases count,
{
    if count > 0 {
        lemma_with_owners(owners, count - 1, k, s);
        let before = with_owners(Seq::empty(), owners, count - 1);
        let list = with_owners(Seq::empty(), owners, count);
        let last = owners[count - 1];
        if last.symbols.len() > 0 {
            lemma_with_names(before, last, last.symbols.len() as int, s);
        }
        assert(before.len() < list.len());
        assert forall|i: int| 0 <= i < before.len() implies list[i] == before[i] by {}
        if k == count - 1 {
            if last.symbols.len() == 0 {
                assert(list[before.len() as int].module == Cell::Text(last.module));
            } else if 0 <= s < last.symbols.len() {
                assert(list[before.len() + s].symbol == Cell::Text(last.symbols[s]));
            }
        } else if 0 <= k < count - 1 {
            let wanted = if owners[k].symbols.len() == 0 {
                AttributionView {
                    module: Cell::Text(owners[k].module),
                    symbol: Cell::not_available(),
                }
            } else {
                AttributionView {
                    module: Cell::Text(owners[k].module),
                    symbol: Cell::Text(owners[k].symbols[s]),
                }
            };
            if before.contains(wanted) {
                let n = choose|n: int| 0 <= n < before.len() && before[n] == wanted;
                assert(list[n] == wanted);
            }
        }
        assert forall|i: int| 0 <= i < list.len() implies exists|j: int|
            0 <= j < count && (#[trigger] list[i]).module == Cell::Text(
                (#[trigger] owners[j]).module,
            ) by {
            if i < before.len() {
                let j = choose|j: int|
                    0 <= j < count - 1 && before[i].module == Cell::Text(
                        (#[trigger] owners[j]).module,
                    );
                assert(list[i].module == Cell::Text(owners[j].module));
            } else {
                assert(list[i].module == Cell::Text(owners[count - 1].module));
            }
        }
    }
}

/// Code in a module is attributed to that module, under each name that the module has
/// for the place, or without a name where it has none.
pub proof fn law_code_belongs_to_the_module_it_lies_in(
    modules: Seq<CodeModule>,
    address: u64,
    m: int,
)
    requires
        0 <= m < modules.len(),
        lies_in(address, modules[m]),
    ensures
        forall|s: int|
            0 <= s < modules[m].symbols@.len() && (#[trigger] modules[m].symbols@[s]).address
                == address ==> attributed(modules, address).contains(
                AttributionView {
                    module: Cell::Text(modules[m].name@),
                    symbol: Cell::Text(modules[m].symbols@[s].name@),
                },
            ),
        (forall|s: int|
            0 <= s < modules[m].symbols@.len() ==> (#[trigger] modules[m].symbols@[s]).address
                != address) ==> attributed(modules, address).contains(
            AttributionView {
                module: Cell::Text(modules[m].name@),
                symbol: Cell::not_available(),
            },
        ),
{
    lemma_owners(modules, address, m);
    let symbols = modules[m].symbols@;
    let owners = owners_of(modules, address);
    let owner = OwnerView { module: modules[m].name@, symbols: names_at(symbols, address) };
    let k = choose|k: int| 0 <= k < owners.len() && owners[k] == owner;
    lemma_names(symbols, address, 0);
    assert forall|s: int|
        0 <= s < symbols.len() && (#[trigger] symbols[s]).address == address implies attributed(
        modules,
        address,
    ).contains(
        AttributionView {
            module: Cell::Text(modules[m].name@),
            symbol: Cell::Text(symbols[s].name@),
        },
    ) by {
        lemma_names(symbols, address, s);
        let n = choose|n: int| 0 <= n < owner.symbols.len() && owner.symbols[n] == symbols[s].name@;
        lemma_with_owners(owners, owners.len() as int, k, n);
    }
    lemma_with_owners(owners, owners.len() as int, k, 0);
}

/// Code is attributed to no module that it does not lie in, and code in no module at all
/// is reported without one.
pub proof fn law_code_belongs_to_no_other_module(modules: Seq<CodeModule>, address: u64)
    ensures
        attributed(modules, address).len() > 0,
        (forall|m: int| 0 <= m < modules.len() ==> !lies_in(address, #[trigger] modules[m]))
            ==> attributed(modules, address) == seq![
            AttributionView { module: Cell::not_available(), symbol: Cell::not_available() },
        ],
        forall|i: int|
            0 <= i < attributed(modules, address).len() ==> (#[trigger] attributed(
                modules,
                address,
            )[i]).module == Cell::not_available() || exists|m: int|
                0 <= m < modules.len() && lies_in(address, #[trigger] modules[m]) && attributed(
                    modules,
                    address,
                )[i].module == Cell::Text(modules[m].name@),
{
    lemma_owners(modules, address, 0);
    let owners = owners_of(modules, address);
    lemma_with_owners(owners, owners.len() as int, 0, 0);
    let list = attributed(modules, address);
    if owners.len() > 0 {
        let j = choose|j: int|
            0 <= j < modules.len() && lies_in(address, #[trigger] modules[j]) && owners[0] == (
            OwnerView {
                module: modules[j].name@,
                symbols: names_at(modules[j].symbols@, address),
            });
        assert(lies_in(address, modules[j]));
        assert forall|i: int| 0 <= i < list.len() implies (#[trigger] list[i]).module
            == Cell::not_available() || exists|m: int|
            0 <= m < modules.len() && lies_in(address, #[trigger] modules[m]) && list[i].module
                == Cell::Text(modules[m].name@) by {
            let k = choose|k: int|
                0 <= k < owners.len() && list[i].module == Cell::Text((#[trigger] owners[k]).module);
            let m = choose|m: int|
                0 <= m < modules.len() && lies_in(address, #[trigger] modules[m]) && owners[k] == (
                OwnerView {
                    module: modules[m].name@,
                    symbols: names_at(modules[m].symbols@, address),
                });
            assert(list[i].module == Cell::Text(modules[m].name@));
        }
    }
}

/// Whether an allocation is one that a scan looks for: its tag and structure are those
/// asked for, it lies in one of the pools asked for, and its size and index are in
/// bounds.
pub open spec fn is_sought(constraint: PoolConstraint, hit: PoolHit) -> bool {
    &&& hit.tag == constraint.tag
    &&& hit.structure@ == constraint.structure@
    &&& hit.table == constraint.table
    &&& constraint.pool & hit.pool != 0
    &&& constraint.least matches Some(least) ==> hit.size >= least
    &&& constraint.most matches Some(most) ==> hit.size <= most
    &&& constraint.least_index matches Some(least) ==> hit.index >= least
    &&& constraint.most_index matches Some(most) ==> hit.index <= most
}

/// A scan of the pools finds each allocation that it looks for.
pub proof fn law_a_scan_finds_what_it_looks_for(
    hits: Seq<PoolHit>,
    constraints: Seq<PoolConstraint>,
    i: int,
    c: int,
)
    requires
        0 <= i < hits.len(),
        0 <= c < constraints.len(),
        is_sought(constraints[c], hits[i]),
    ensures
        exists|n: int|
            0 <= n < admitted(hits, constraints).len() && *(#[trigger] admitted(
                hits,
                constraints,
            )[n]) == hits[i],
    decreases hits.len(),
{
    let less = hits.drop_last();
    let before = admitted(less, constraints);
    let all = admitted(hits, constraints);
    if i < less.len() {
        assert(less[i] == hits[i]);
        law_a_scan_finds_what_it_looks_for(less, constraints, i, c);
        let n = choose|n: int| 0 <= n < before.len() && *(#[trigger] before[n]) == hits[i];
        assert(*all[n] == hits[i]);
    } else {
        assert(constraints[c].admits(hits.last()));
        assert(*all[before.len() as int] == hits[i]);
    }
}

/// A scan of the pools finds nothing that it does not look for.
pub proof fn law_a_scan_finds_nothing_else(
    hits: Seq<PoolHit>,
    constraints: Seq<PoolConstraint>,
    n: int,
)
    requires
        0 <= n < admitted(hits, constraints).len(),
    ensures
        exists|i: int, c: int|
            0 <= i < hits.len() && 0 <= c < constraints.len() && *admitted(hits, constraints)[n]
                == #[trigger] hits[i] && is_sought(#[trigger] constraints[c], hits[i]),
    decreases hits.len(),
{
    let less = hits.drop_last();
    let before = admitted(less, constraints);
    if n < before.len() {
        law_a_scan_finds_nothing_else(less, constraints, n);
        let (i, c) = choose|i: int, c: int|
            0 <= i < less.len() && 0 <= c < constraints.len() && *before[n] == #[trigger] less[i]
                && is_sought(#[trigger] constraints[c], less[i]);
        assert(hits[i] == less[i]);
        assert(is_sought(constraints[c], hits[i]));
    } else {
        let c = choose|c: int|
            0 <= c < constraints.len() && (#[trigger] constraints[c]).admits(hits.last());
        assert(hits[hits.len() - 1] == hits.last());
        assert(is_sought(constraints[c], hits[hits.len() - 1]));
    }
}

/// A scan by tags finds the kernel objects that carry one of them, or all of them where
/// no tag is given, and nothing else.
pub proof fn law_a_scan_by_tags(hits: Seq<PoolHit>, tags: Seq<u32>, i: int, n: int)
    ensures
        0 <= i < hits.len() && hits[i].object_type is Some && (tags.len() == 0 || tags.contains(
            hits[i].tag,
        )) ==> exists|m: int|
            0 <= m < tagged(hits, tags).len() && *(#[trigger] tagged(hits, tags)[m]) == hits[i],
        0 <= n < tagged(hits, tags).len() ==> tagged(hits, tags)[n].object_type is Some && (tags.len()
            == 0 || tags.contains(tagged(hits, tags)[n].tag)) && exists|j: int|
            0 <= j < hits.len() && *tagged(hits, tags)[n] == #[trigger] hits[j],
    decreases hits.len(),
{
    if hits.len() > 0 {
        let less = hits.drop_last();
        law_a_scan_by_tags(less, tags, i, n);
        let before = tagged(less, tags);
        let all = tagged(hits, tags);
        if 0 <= i < hits.len() && hits[i].object_type is Some && (tags.len() == 0 || tags.contains(
            hits[i].tag,
        )) {
            if i < less.len() {
                assert(less[i] == hits[i]);
                let m = choose|m: int| 0 <= m < before.len() && *(#[trigger] before[m]) == hits[i];
                assert(*all[m] == hits[i]);
            } else {
                assert(*all[before.len() as int] == hits[i]);
            }
        }
        if 0 <= n < all.len() {
            if n < before.len() {
                let j = choose|j: int| 0 <= j < less.len() && *before[n] == #[trigger] less[j];
                assert(*all[n] == hits[j]);
            } else {
                assert(*all[n] == hits[hits.len() - 1]);
            }
        }
    }
}

} // verus!
