use vstd::prelude::*;

verus! {

/// A weapon or armor modification attached to an item (Mass Effect 1).
#[derive(Clone, Copy, Debug, PartialEq, Eq, Structural)]
pub struct ItemMod {
    pub item_id: i32,
    pub item_level: i32,
    pub manufacturer_id: i32,
    pub plot_conditional_id: i32,
}

/// An item of the inventory or of an equipment slot (Mass Effect 1).
#[derive(Debug)]
pub struct Item {
    pub item_id: i32,
    pub item_level: i32,
    pub manufacturer_id: i32,
    pub plot_conditional_id: i32,
    pub new_item: bool,
    pub attached_mods: Vec<ItemMod>,
}

/// The value of an item, its mods as a sequence.
pub struct ItemView {
    pub item_id: i32,
    pub item_level: i32,
    pub manufacturer_id: i32,
    pub plot_conditional_id: i32,
    pub new_item: bool,
    pub attached_mods: Seq<ItemMod>,
}

impl View for Item {
    type V = ItemView;

    open spec fn view(&self) -> ItemView {
        ItemView {
            item_id: self.item_id,
            item_level: self.item_level,
            manufacturer_id: self.manufacturer_id,
            plot_conditional_id: self.plot_conditional_id,
            new_item: self.new_item,
            attached_mods: self.attached_mods@,
        }
    }
}

/// The values of a list of items.
pub open spec fn item_views(items: Seq<Item>) -> Seq<ItemView> {
    items.map_values(|item: Item| item@)
}

/// Appending an item appends its value.
pub proof fn lemma_item_views_push(items: Seq<Item>, item: Item)
    ensures
        item_views(items.push(item)) == item_views(items).push(item@),
{
    assert(item_views(items.push(item)) =~= item_views(items).push(item@));
}

/// An empty slot: the item with id 0 and no mods.
pub open spec fn empty_item_view() -> ItemView {
    ItemView {
        item_id: 0,
        item_level: 0,
        manufacturer_id: 0,
        plot_conditional_id: 0,
        new_item: false,
        attached_mods: Seq::empty(),
    }
}

impl Item {
    /// An empty slot: the item with id 0 and no mods.
    pub fn empty() -> (res: Item)
        ensures
            res@ == empty_item_view(),
    {
        Item {
            item_id: 0,
            item_level: 0,
            manufacturer_id: 0,
            plot_conditional_id: 0,
            new_item: false,
            attached_mods: Vec::new(),
        }
    }

    /// A copy of the item.
    pub fn duplicate(&self) -> (res: Item)
        ensures
            res@ == self@,
    {
        let mut mods: Vec<ItemMod> = Vec::new();
        let mut i: usize = 0;
        while i < self.attached_mods.len()
            invariant
                i <= self.attached_mods@.len(),
                mods@ == self.attached_mods@.take(i as int),
            decreases self.attached_mods@.len() - i,
        {
            mods.push(self.attached_mods[i]);
            i = i + 1;
            proof {
                assert(mods@ =~= self.attached_mods@.take(i as int));
            }
        }
        proof {
            assert(mods@ =~= self.attached_mods@);
        }
        Item {
            item_id: self.item_id,
            item_level: self.item_level,
            manufacturer_id: self.manufacturer_id,
            plot_conditional_id: self.plot_conditional_id,
            new_item: self.new_item,
            attached_mods: mods,
        }
    }
}

/// A mod taken off an item, as a new item of the inventory.
pub open spec fn detached_mod(m: ItemMod) -> ItemView {
    ItemView {
        item_id: m.item_id,
        item_level: m.item_level,
        manufacturer_id: m.manufacturer_id,
        plot_conditional_id: m.plot_conditional_id,
        new_item: true,
        attached_mods: Seq::empty(),
    }
}

/// What unequipping `item` puts in the inventory: nothing for an empty
/// slot, else each of its mods as a new item, then the item itself, new and
/// without mods.
pub open spec fn unequipped(item: ItemView) -> Seq<ItemView> {
    if item.item_id == 0 {
        Seq::empty()
    } else {
        item.attached_mods.map_values(|m: ItemMod| detached_mod(m)).push(
            ItemView { new_item: true, attached_mods: Seq::empty(), ..item },
        )
    }
}

/// Moves `item` and its mods to the end of `inventory`, as `unequipped` says.
pub fn unequip_item_and_mods(item: Item, inventory: &mut Vec<Item>)
    ensures
        item_views(final(inventory)@) == item_views(old(inventory)@) + unequipped(item@),
{
    if item.item_id == 0 {
        proof {
            assert(item_views(inventory@) =~= item_views(inventory@) + unequipped(item@));
        }
        return;
    }
    let ghost start = item_views(inventory@);
    let mut i: usize = 0;
    while i < item.attached_mods.len()
        invariant
            i <= item.attached_mods@.len(),
            item.item_id != 0,
            item_views(inventory@) == start + item.attached_mods@.take(i as int).map_values(
                |m: ItemMod| detached_mod(m),
            ),
        decreases item.attached_mods@.len() - i,
    {
        let m = item.attached_mods[i];
        let ghost before = inventory@;
        inventory.push(
            Item {
                item_id: m.item_id,
                item_level: m.item_level,
                manufacturer_id: m.manufacturer_id,
                plot_conditional_id: m.plot_conditional_id,
                new_item: true,
                attached_mods: Vec::new(),
            },
        );
        proof {
            lemma_item_views_push(before, inventory@.last());
            assert(inventory@ == before.push(inventory@.last()));
            assert(item.attached_mods@.take(i + 1) =~= item.attached_mods@.take(i as int).push(m));
        }
        i = i + 1;
        proof {
            assert(item_views(inventory@) =~= start + item.attached_mods@.take(i as int).map_values(
                |m: ItemMod| detached_mod(m),
            ));
        }
    }
    let ghost item_view = item@;
    let ghost before = inventory@;
    inventory.push(
        Item {
            item_id: item.item_id,
            item_level: item.item_level,
            manufacturer_id: item.manufacturer_id,
            plot_conditional_id: item.plot_conditional_id,
            new_item: true,
            attached_mods: Vec::new(),
        },
    );
    proof {
        lemma_item_views_push(before, inventory@.last());
        assert(inventory@ == before.push(inventory@.last()));
        assert(item.attached_mods@.take(item.attached_mods@.len() as int) =~= item.attached_mods@);
        assert(item_views(inventory@) =~= start + unequipped(item_view));
    }
}

} // verus!
