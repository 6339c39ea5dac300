//! Which of a host's resolved addresses a run probes.

use vstd::prelude::*;

use crate::packet::AddressFamily;

verus! {

/// The index of the last address of `family` among `families`.
pub open spec fn last_of_family(families: Seq<AddressFamily>, family: AddressFamily) -> Option<
    int,
>
    decreases families.len(),
{
    if families.len() == 0 {
        None
    } else if families.last() == family {
        Some(families.len() - 1)
    } else {
        last_of_family(families.drop_last(), family)
    }
}

/// The index of the address to probe, given the families of a host's
/// resolved addresses in the order in which they were resolved: an IPv4
/// address where there is one, else an IPv6 address, in each case the one
/// resolved last.
pub open spec fn preferred_address(families: Seq<AddressFamily>) -> Option<int> {
    match last_of_family(families, AddressFamily::V4) {
        Some(at) => Some(at),
        None => last_of_family(families, AddressFamily::V6),
    }
}

/// `last_of_family` finds an address of the family, and the last one; where
/// it finds none, there is none.
pub proof fn lemma_last_of_family(families: Seq<AddressFamily>, family: AddressFamily)
    ensures
        match last_of_family(families, family) {
            Some(at) => {
                &&& 0 <= at < families.len()
                &&& families[at] == family
                &&& forall|i: int| at < i < families.len() ==> #[trigger] families[i] != family
            },
            None => forall|i: int| 0 <= i < families.len() ==> #[trigger] families[i] != family,
        },
    decreases families.len(),
{
    if families.len() > 0 && families.last() != family {
        let earlier = families.drop_last();
        lemma_last_of_family(earlier, family);
        assert forall|i: int| 0 <= i < earlier.len() implies earlier[i] == families[i] by {}
    }
}

/// An address is chosen exactly when there is one, and an IPv6 address
/// only when no IPv4 address was resolved.
pub proof fn lemma_preferred_address(families: Seq<AddressFamily>)
    ensures
        preferred_address(families) is Some <==> families.len() > 0,
        preferred_address(families) matches Some(at) ==> {
            &&& 0 <= at < families.len()
            &&& families[at] == AddressFamily::V6 ==> forall|i: int|
                0 <= i < families.len() ==> #[trigger] families[i] == AddressFamily::V6
        },
{
    lemma_last_of_family(families, AddressFamily::V4);
    lemma_last_of_family(families, AddressFamily::V6);
    if families.len() > 0 && last_of_family(families, AddressFamily::V4) is None {
        assert(families[0] != AddressFamily::V4);
    }
}

/// Picks the address to probe among a host's resolved addresses, given
/// their families in the order in which they were resolved.
pub fn choose_address(families: &[AddressFamily]) -> (chosen: Option<usize>)
    ensures
        match chosen {
            Some(at) => preferred_address(families@) == Some(at as int),
            None => preferred_address(families@) is None,
        },
        chosen is Some <==> families@.len() > 0,
{
    let mut v4: Option<usize> = None;
    let mut v6: Option<usize> = None;
    let mut i: usize = 0;
    proof {
        assert(families@.take(0) =~= Seq::<AddressFamily>::empty());
    }
    while i < families.len()
        invariant
            i <= families@.len(),
            match v4 {
                Some(at) => last_of_family(families@.take(i as int), AddressFamily::V4) == Some(
                    at as int,
                ),
                None => last_of_family(families@.take(i as int), AddressFamily::V4) is None,
            },
            match v6 {
                Some(at) => last_of_family(families@.take(i as int), AddressFamily::V6) == Some(
                    at as int,
                ),
                None => last_of_family(families@.take(i as int), AddressFamily::V6) is None,
            },
        decreases families@.len() - i,
    {
        proof {
            let longer = families@.take(i + 1);
            assert(longer.drop_last() =~= families@.take(i as int));
            assert(longer.last() == families@[i as int]);
        }
        match families[i] {
            AddressFamily::V4 => {
                v4 = Some(i);
            },
            AddressFamily::V6 => {
                v6 = Some(i);
            },
        }
        i = i + 1;
    }
    proof {
        assert(families@.take(i as int) =~= families@);
        lemma_preferred_address(families@);
    }
    if v4.is_some() {
        v4
    } else {
        v6
    }
}

} // verus!
