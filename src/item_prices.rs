use std::collections::HashMap;

use vstd::math::max;
use vstd::prelude::*;

use crate::multiplier::{
    floor_scaled, multiplier_of_bits, scaled_price, scaled_price_spec, Multiplier,
};
use crate::refresh::{ErrorKind, RefreshError, Stage};
use crate::snapshot::Domain;

verus! {

/// One tradeable item: its current price and its reference ("wiki") price.
#[derive(Debug)]
pub struct ItemPrice {
    pub id: i32,
    pub name: String,
    pub price: i32,
    pub wiki_price: i32,
}

/// Every multiplier of the map is a finite binary64 number.
pub open spec fn overrides_wf(overrides: Map<i32, Multiplier>) -> bool {
    forall|id: i32| #[trigger] overrides.contains_key(id) ==> overrides[id].wf()
}

/// What an override does to one item: both prices rescaled when the map has
/// an entry for its id, the item untouched otherwise.
pub open spec fn item_overridden(
    item: ItemPrice,
    overrides: Map<i32, Multiplier>,
) -> ItemPrice {
    if overrides.contains_key(item.id) {
        let m = overrides[item.id];
        ItemPrice {
            id: item.id,
            name: item.name,
            price: scaled_price_spec(item.price, m),
            wiki_price: scaled_price_spec(item.wiki_price, m),
        }
    } else {
        item
    }
}

/// The whole list after the overrides, item by item and in order.
pub open spec fn prices_overridden(
    items: Seq<ItemPrice>,
    overrides: Map<i32, Multiplier>,
) -> Seq<ItemPrice> {
    items.map_values(|item: ItemPrice| item_overridden(item, overrides))
}

/// Every multiplier of the entries is a finite number.
pub open spec fn all_finite(entries: Seq<(i32, u64)>) -> bool {
    forall|i: int| 0 <= i < entries.len() ==> (#[trigger] multiplier_of_bits(entries[i].1)) is Some
}

/// The override map that the entries `(id, multiplier bits)` spell, a later
/// entry for an id taking the place of an earlier one.
pub open spec fn overrides_of(entries: Seq<(i32, u64)>) -> Map<i32, Multiplier>
    decreases entries.len(),
{
    if entries.len() == 0 {
        Map::empty()
    } else {
        let (id, bits) = entries.last();
        overrides_of(entries.drop_last()).insert(id, multiplier_of_bits(bits)->Some_0)
    }
}

/// Builds the override map from the store's entries, each multiplier given as
/// the bit pattern of a binary64 number. An infinite or NaN multiplier is
/// malformed data: the whole map is then refused with a decode error.
pub fn decode_overrides(entries: &Vec<(i32, u64)>) -> (r: Result<HashMap<i32, Multiplier>, RefreshError>)
    ensures
        r is Ok <==> all_finite(entries@),
        r matches Ok(m) ==> m@ == overrides_of(entries@) && overrides_wf(m@),
        r matches Err(e) ==> e == (RefreshError {
            domain: Domain::Prices,
            stage: Stage::Fetching,
            kind: ErrorKind::Decode,
        }),
{
    let mut map: HashMap<i32, Multiplier> = HashMap::new();
    let mut i: usize = 0;
    while i < entries.len()
        invariant
            i <= entries@.len(),
            all_finite(entries@.subrange(0, i as int)),
            map@ == overrides_of(entries@.subrange(0, i as int)),
            overrides_wf(map@),
        decreases entries@.len() - i,
    {
        let (id, bits) = entries[i];
        let ghost next = entries@.subrange(0, i + 1);
        assert(next.drop_last() =~= entries@.subrange(0, i as int));
        match Multiplier::from_bits(bits) {
            Some(m) => {
                map.insert(id, m);
                proof {
                    assert forall|j: int| 0 <= j < next.len() implies (#[trigger] multiplier_of_bits(
                        next[j].1,
                    )) is Some by {
                        if j < i {
                            assert(next[j] == entries@.subrange(0, i as int)[j]);
                        }
                    }
                }
            },
            None => {
                proof {
                    assert(!all_finite(entries@)) by {
                        assert(multiplier_of_bits(entries@[i as int].1) is None);
                    }
                }
                return Err(
                    RefreshError {
                        domain: Domain::Prices,
                        stage: Stage::Fetching,
                        kind: ErrorKind::Decode,
                    },
                );
            },
        }
        i = i + 1;
    }
    assert(entries@.subrange(0, entries@.len() as int) =~= entries@);
    Ok(map)
}

impl ItemPrice {
    /// Rescales both prices together: each becomes `max(floor(p * m), 1)`, the
    /// product taken in binary64 as `scaled_price` describes.
    pub fn update_price(&mut self, multiplier: Multiplier)
        requires
            multiplier.wf(),
        ensures
            final(self).id == old(self).id,
            final(self).name == old(self).name,
            final(self).price == scaled_price_spec(old(self).price, multiplier),
            final(self).wiki_price == scaled_price_spec(old(self).wiki_price, multiplier),
    {
        self.price = scaled_price(self.price, multiplier);
        self.wiki_price = scaled_price(self.wiki_price, multiplier);
    }
}

/// Applies the override map to every item whose id it holds; an id that the
/// map lacks leaves its item as it was.
pub fn apply_custom_item_prices(prices: &mut Vec<ItemPrice>, overrides: &HashMap<i32, Multiplier>)
    requires
        overrides_wf(overrides@),
    ensures
        final(prices)@ == prices_overridden(old(prices)@, overrides@),
{
    let n = prices.len();
    let mut i: usize = 0;
    while i < n
        invariant
            n == prices@.len(),
            n == old(prices)@.len(),
            i <= n,
            overrides_wf(overrides@),
            forall|j: int|
                0 <= j < i ==> #[trigger] prices@[j] == item_overridden(
                    old(prices)@[j],
                    overrides@,
                ),
            forall|j: int| i <= j < n ==> #[trigger] prices@[j] == old(prices)@[j],
        decreases n - i,
    {
        let id = prices[i].id;
        match overrides.get(&id) {
            Some(m) => {
                proof {
                    assert(overrides@.contains_key(id));
                }
                prices[i].update_price(*m);
            },
            None => {},
        }
        i = i + 1;
    }
    assert(prices@ =~= prices_overridden(old(prices)@, overrides@));
}

/// Overriding is a function of the un-overridden list and the map alone: two runs
/// on the same un-overridden input give the same list, which is the list a
/// single run gives.
pub proof fn lemma_overrides_repeatable(
    items: Seq<ItemPrice>,
    overrides: Map<i32, Multiplier>,
    first: Seq<ItemPrice>,
    second: Seq<ItemPrice>,
)
    requires
        first == prices_overridden(items, overrides),
        second == prices_overridden(items, overrides),
    ensures
        first == second,
        forall|i: int|
            0 <= i < items.len() ==> #[trigger] second[i] == item_overridden(
                items[i],
                overrides,
            ),
{
}

/// Every overridden item has both prices at `max(floor(p * m), 1)` (capped at
/// the largest `i32`, which is `max(floor(p * m), 1)` itself wherever that fits),
/// and every other item is left as it was.
pub proof fn lemma_override_prices(
    items: Seq<ItemPrice>,
    overrides: Map<i32, Multiplier>,
    i: int,
)
    requires
        0 <= i < items.len(),
    ensures
        ({
            let after = prices_overridden(items, overrides)[i];
            let before = items[i];
            &&& after.id == before.id
            &&& after.name == before.name
            &&& overrides.contains_key(before.id) ==> after.price == scaled_price_spec(
                before.price,
                overrides[before.id],
            ) && after.wiki_price == scaled_price_spec(before.wiki_price, overrides[before.id])
                && after.price >= 1 && after.wiki_price >= 1
            &&& overrides.contains_key(before.id) && floor_scaled(before.price as int, overrides[before.id]) <= i32::MAX
                ==> after.price == max(floor_scaled(before.price as int, overrides[before.id]), 1)
            &&& overrides.contains_key(before.id) && floor_scaled(before.wiki_price as int, overrides[before.id]) <= i32::MAX
                ==> after.wiki_price == max(floor_scaled(before.wiki_price as int, overrides[before.id]), 1)
            &&& !overrides.contains_key(before.id) ==> after == before
        }),
{
}

} // verus!
