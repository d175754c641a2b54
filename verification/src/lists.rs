//! Chains of structures that lead from one to the next.

use crate::context::{Context, Object, TypeId};
use vstd::prelude::*;

verus! {

/// How one place of a chain leads to the next.
pub trait Links {
    /// The place that a place leads to.
    spec fn after(&self, at: u64) -> Option<u64>;

    /// The place that a place leads to.
    fn next(&self, at: u64) -> (next: Option<u64>)
        ensures
            next == self.after(at),
    ;
}

/// The number of addresses there are.
pub open spec fn address_count() -> nat {
    0x1_0000_0000_0000_0000
}

/// The places of a chain, from one place to where it ends or comes back to a
/// place that was seen.
pub open spec fn chain_from<L: Links>(
    links: L,
    at: Option<u64>,
    seen: Seq<u64>,
    most: nat,
) -> Seq<u64>
    decreases most,
{
    match at {
        Some(place) => if most == 0 || seen.contains(place) {
            Seq::empty()
        } else {
            seq![place] + chain_from(links, links.after(place), seen.push(place), (most - 1) as nat)
        },
        None => Seq::empty(),
    }
}

/// The places of a chain: each one once, for as long as it lasts.
pub open spec fn chain<L: Links>(links: L, first: Option<u64>, seen: Seq<u64>) -> Seq<u64> {
    chain_from(links, first, seen, address_count())
}

/// There are no more different addresses than there are addresses.
pub proof fn lemma_different_addresses(list: Seq<u64>)
    requires
        list.no_duplicates(),
    ensures
        list.len() <= address_count(),
{
    let all = vstd::set_lib::set_int_range(0, address_count() as int);
    vstd::set_lib::lemma_int_range(0, address_count() as int);
    let ints = list.map_values(|a: u64| a as int);
    assert(ints.no_duplicates()) by {
        assert forall|i: int, j: int| 0 <= i < ints.len() && 0 <= j < ints.len() && i != j implies ints[i]
            != ints[j] by {
            assert(list[i] != list[j]);
        }
    }
    ints.unique_seq_to_set();
    assert(ints.to_set().subset_of(all));
    vstd::set_lib::lemma_len_subset(ints.to_set(), all);
}

/// Whether a place is in a list.
pub fn is_among(list: &Vec<u64>, place: u64) -> (found: bool)
    ensures
        found == list@.contains(place),
{
    for i in 0..list.len()
        invariant
            forall|j: int| 0 <= j < i ==> list@[j] != place,
    {
        if list[i] == place {
            return true;
        }
    }
    false
}

/// Follow a chain from one place to where it ends or comes back to a place that
/// was seen.
pub fn follow<L: Links>(links: &L, first: Option<u64>, start: Option<u64>) -> (places: Vec<u64>)
    ensures
        places@ == chain(
            *links,
            first,
            match start {
                Some(start) => seq![start],
                None => Seq::empty(),
            },
        ),
{
    let mut seen: Vec<u64> = Vec::new();
    if let Some(start) = start {
        seen.push(start);
    }
    let ghost seen_first = seen@;
    let mut places: Vec<u64> = Vec::new();
    let mut at = first;
    let ghost mut most: nat = address_count();
    loop
        invariant
            seen@.no_duplicates(),
            seen@.len() + most == seen_first.len() + address_count(),
            chain(*links, first, seen_first) == places@ + chain_from(*links, at, seen@, most),
        ensures
            places@ == chain(*links, first, seen_first),
        decreases most,
    {
        match at {
            Some(place) => {
                proof {
                    lemma_different_addresses(seen@);
                }
                if is_among(&seen, place) {
                    assert(places@ + Seq::<u64>::empty() =~= places@);
                    break;
                }
                proof {
                    lemma_different_addresses(seen@.push(place));
                }
                assert(most > 0);
                let next = links.next(place);
                let ghost before = places@;
                places.push(place);
                seen.push(place);
                proof {
                    most = (most - 1) as nat;
                    assert(before + (seq![place] + chain_from(*links, next, seen@, most))
                        =~= places@ + chain_from(*links, next, seen@, most));
                }
                at = next;
            },
            None => {
                assert(places@ + Seq::<u64>::empty() =~= places@);
                break;
            },
        }
    }
    places
}

/// No place occurs twice in a chain.
pub proof fn law_chain_has_no_repetition<L: Links>(
    links: L,
    at: Option<u64>,
    seen: Seq<u64>,
    most: nat,
)
    ensures
        chain_from(links, at, seen, most).no_duplicates(),
        forall|i: int|
            0 <= i < chain_from(links, at, seen, most).len() ==> !seen.contains(
                #[trigger] chain_from(links, at, seen, most)[i],
            ),
    decreases most,
{
    if let Some(place) = at {
        if most > 0 && !seen.contains(place) {
            let rest = chain_from(links, links.after(place), seen.push(place), (most - 1) as nat);
            law_chain_has_no_repetition(
                links,
                links.after(place),
                seen.push(place),
                (most - 1) as nat,
            );
            let whole = seq![place] + rest;
            assert forall|i: int| 0 <= i < rest.len() implies rest[i] != place
                && !seen.contains(rest[i]) by {
                assert(!seen.push(place).contains(rest[i]));
                if rest[i] == place {
                    assert(seen.push(place)[seen.len() as int] == place);
                }
                if seen.contains(rest[i]) {
                    let j = choose|j: int| 0 <= j < seen.len() && seen[j] == rest[i];
                    assert(seen.push(place)[j] == rest[i]);
                }
            }
            assert forall|i: int, j: int| 0 <= i < whole.len() && 0 <= j < whole.len() && i
                != j implies whole[i] != whole[j] by {
                if i == 0 {
                    assert(whole[j] == rest[j - 1]);
                } else if j == 0 {
                    assert(whole[i] == rest[i - 1]);
                } else {
                    assert(whole[i] == rest[i - 1]);
                    assert(whole[j] == rest[j - 1]);
                }
            }
            assert forall|i: int| 0 <= i < whole.len() implies !seen.contains(#[trigger] whole[i]) by {
                if i > 0 {
                    assert(whole[i] == rest[i - 1]);
                }
            }
        }
    }
}

/// A doubly linked list of the Windows kernel, seen from its head.
pub struct ListEntry<'a> {
    pub context: &'a Context,
    pub head: Object,
    pub forward: bool,
}

impl<'a> Links for ListEntry<'a> {
    open spec fn after(&self, at: u64) -> Option<u64> {
        self.context.member_pointer(
            Object { layer: self.head.native, offset: at, ..self.head },
            if self.forward {
                "Flink"
            } else {
                "Blink"
            },
        )
    }

    fn next(&self, at: u64) -> (next: Option<u64>) {
        let link = Object {
            kind: self.head.kind,
            layer: self.head.native,
            native: self.head.native,
            offset: at,
        };
        if self.forward {
            self.context.member_pointer(link, "Flink")
        } else {
            self.context.member_pointer(link, "Blink")
        }
    }
}

/// The objects of a type in which the places of a chain are a member.
pub open spec fn holders(places: Seq<u64>, kind: TypeId, member: u64, layer: usize) -> Seq<Object> {
    Seq::new(
        places.len(),
        |i: int|
            Object { kind, layer, native: layer, offset: places[i].wrapping_sub(member) },
    )
}

/// The objects of a type in which the places of a chain are a member.
pub fn hold(places: &Vec<u64>, kind: TypeId, member: u64, layer: usize) -> (objects: Vec<Object>)
    ensures
        objects@ == holders(places@, kind, member, layer),
{
    let mut objects: Vec<Object> = Vec::new();
    for i in 0..places.len()
        invariant
            objects@ == holders(places@, kind, member, layer).take(i as int),
    {
        objects.push(
            Object { kind, layer, native: layer, offset: places[i].wrapping_sub(member) },
        );
    }
    objects
}

/// The objects of a type that a list links through one of their members. There
/// are none to speak of where the type has no such member.
pub open spec fn listed(
    context: &Context,
    head: Object,
    kind: Option<TypeId>,
    member: &str,
    forward: bool,
) -> Option<Seq<Object>> {
    match kind {
        Some(kind) => match context.find_member(kind, member) {
            Some((offset, _)) => {
                let links = ListEntry { context, head, forward };
                Some(
                    holders(
                        chain(
                            links,
                            context.member_pointer(
                                head,
                                if forward {
                                    "Flink"
                                } else {
                                    "Blink"
                                },
                            ),
                            seq![head.offset],
                        ),
                        kind,
                        offset,
                        head.native,
                    ),
                )
            },
            None => None,
        },
        None => None,
    }
}

/// The objects of a type that a list links through one of their members.
pub fn walk_list(
    context: &Context,
    head: Object,
    kind: Option<TypeId>,
    member: &str,
    forward: bool,
) -> (objects: Option<Vec<Object>>)
    ensures
        match objects {
            Some(objects) => listed(context, head, kind, member, forward) == Some(objects@),
            None => listed(context, head, kind, member, forward) is None,
        },
{
    match kind {
        Some(kind) => match context.find_member(kind, member) {
            Some((offset, _)) => {
                let links = ListEntry { context, head, forward };
                let first = if forward {
                    context.member_pointer(head, "Flink")
                } else {
                    context.member_pointer(head, "Blink")
                };
                let places = follow(&links, first, Some(head.offset));
                Some(hold(&places, kind, offset, head.native))
            },
            None => None,
        },
        None => None,
    }
}

} // verus!
