use vstd::prelude::*;

verus! {

/// A stack of one kind of item. Item id 0 marks an empty slot.
pub struct Item {
    pub name: String,
    pub item_id: usize,
    pub quantity: usize,
}

impl Item {
    /// A stack of `quantity` items of kind `item_id`, shown as `name`.
    pub fn new(name: String, item_id: usize, quantity: usize) -> (r: Item)
        ensures
            r.name == name,
            r.item_id == item_id,
            r.quantity == quantity,
    {
        Item { name, item_id, quantity }
    }
}

/// Number of slots of an inventory.
pub const INVENTORY_SLOTS: usize = 10;

/// A row of item slots with one of them selected.
pub struct Inventory {
    pub items: Vec<Item>,
    pub active_slot: usize,
}

/// The slot holds no item: an empty name, item id 0 and quantity 0.
pub open spec fn is_blank(it: Item) -> bool {
    it.name@ == Seq::<char>::empty() && it.item_id == 0 && it.quantity == 0
}

/// A slot that an incoming item of kind `id` is stacked onto: same kind,
/// and not the empty kind 0.
pub open spec fn stacks_with(it: Item, id: usize) -> bool {
    it.item_id == id && id != 0
}

/// `i` is the first slot that an item of kind `id` stacks onto.
pub open spec fn is_first_stack(items: Seq<Item>, id: usize, i: int) -> bool {
    &&& 0 <= i < items.len()
    &&& stacks_with(items[i], id)
    &&& forall|k: int| 0 <= k < i ==> !stacks_with(#[trigger] items[k], id)
}

/// Some slot stacks with kind `id`.
pub open spec fn has_stack(items: Seq<Item>, id: usize) -> bool {
    exists|i: int| 0 <= i < items.len() && stacks_with(#[trigger] items[i], id)
}

/// `i` is the first empty slot (item id 0).
pub open spec fn is_first_empty(items: Seq<Item>, i: int) -> bool {
    &&& 0 <= i < items.len()
    &&& items[i].item_id == 0
    &&& forall|k: int| 0 <= k < i ==> (#[trigger] items[k]).item_id != 0
}

/// Some slot is empty.
pub open spec fn has_empty(items: Seq<Item>) -> bool {
    exists|i: int| 0 <= i < items.len() && (#[trigger] items[i]).item_id == 0
}

/// The slots after `item` is added to `old`: stacked onto the first slot of
/// its kind where there is one (quantities add up), else put in the first
/// empty slot, else dropped.
pub open spec fn add_item_post(old: Seq<Item>, item: Item, new: Seq<Item>) -> bool {
    if has_stack(old, item.item_id) {
        exists|i: int| #[trigger] is_first_stack(old, item.item_id, i) && new == old.update(i,
            Item { name: old[i].name, item_id: old[i].item_id, quantity: (old[i].quantity + item.quantity) as usize })
    } else if has_empty(old) {
        exists|i: int| #[trigger] is_first_empty(old, i) && new == old.update(i, item)
    } else {
        new == old
    }
}

/// Adding `item` to `old` overflows no quantity.
pub open spec fn add_item_fits(old: Seq<Item>, item: Item) -> bool {
    forall|i: int| #[trigger] is_first_stack(old, item.item_id, i) ==> old[i].quantity + item.quantity <= usize::MAX
}

/// The slot selected after scrolling by `delta` from `slot` among `n` slots:
/// a positive `delta` moves back, and the selection wraps around.
pub open spec fn scrolled_slot(slot: int, delta: int, n: int) -> int {
    (slot - delta) % n
}

impl Inventory {
    /// The inventory has its `INVENTORY_SLOTS` slots and a slot of them selected.
    pub open spec fn wf(&self) -> bool {
        self.items@.len() == INVENTORY_SLOTS && self.active_slot < INVENTORY_SLOTS
    }

    /// An inventory of `INVENTORY_SLOTS` empty slots, the first one selected.
    pub fn new() -> (r: Inventory)
        ensures
            r.wf(),
            r.active_slot == 0,
            forall|i: int| 0 <= i < INVENTORY_SLOTS ==> is_blank(#[trigger] r.items@[i]),
    {
        let mut items: Vec<Item> = Vec::new();
        for i in 0..INVENTORY_SLOTS
            invariant
                items@.len() == i,
                forall|k: int| 0 <= k < i ==> is_blank(#[trigger] items@[k]),
        {
            items.push(Item::new(String::new(), 0, 0));
        }
        Inventory { items, active_slot: 0 }
    }

    /// Moves the selection by `-delta` slots, wrapping around the row. The
    /// selected slot is taken as an `isize`, wrapping as `as isize` does.
    pub fn change_active_slot(&mut self, delta: isize)
        requires
            0 < old(self).items@.len() <= isize::MAX,
            delta != isize::MIN,
            isize::MIN <= (old(self).active_slot as isize) - delta <= isize::MAX,
        ensures
            final(self).items@ == old(self).items@,
            final(self).active_slot < old(self).items@.len(),
            final(self).active_slot == scrolled_slot((old(self).active_slot as isize) as int, delta as int, old(self).items@.len() as int),
    {
        let n: u128 = self.items.len() as u128;
        let a: isize = self.active_slot as isize;
        let v: i128 = a as i128 - delta as i128;
        let slot: u128 = if v >= 0 {
            (v as u128) % n
        } else {
            let w: u128 = (-v) as u128;
            let m: u128 = w % n;
            proof {
                let q = w / n;
                assert(w == q * n + m) by (nonlinear_arith)
                    requires n > 0, q == w / n, m == w % n;
                if m == 0 {
                    assert(v == (-q) * n + 0) by (nonlinear_arith)
                        requires v == -(w as int), w == q * n;
                    vstd::arithmetic::div_mod::lemma_fundamental_div_mod_converse(v as int, n as int, -q, 0);
                } else {
                    assert(v == (-q - 1) * n + (n - m)) by (nonlinear_arith)
                        requires v == -(w as int), w == q * n + m;
                    vstd::arithmetic::div_mod::lemma_fundamental_div_mod_converse(v as int, n as int, -q - 1, (n - m) as int);
                }
            }
            if m == 0 { 0 } else { n - m }
        };
        self.active_slot = slot as usize;
    }

    /// Whether adding `item` overflows no quantity, so that `add_item` may
    /// be called with it.
    pub fn can_add_item(&self, item: &Item) -> (r: bool)
        ensures
            r == add_item_fits(self.items@, *item),
    {
        let n = self.items.len();
        for i in 0..n
            invariant
                n == self.items@.len(),
                forall|k: int| 0 <= k < i ==> !stacks_with(#[trigger] self.items@[k], item.item_id),
        {
            if self.items[i].item_id == item.item_id && self.items[i].item_id != 0 {
                proof {
                    assert(is_first_stack(self.items@, item.item_id, i as int));
                    assert forall|j: int| #[trigger] is_first_stack(self.items@, item.item_id, j) implies j == i by {
                        if j > i {
                            assert(!stacks_with(self.items@[i as int], item.item_id));
                        }
                    }
                }
                return self.items[i].quantity <= usize::MAX - item.quantity;
            }
        }
        true
    }

    /// Puts `item` in the inventory: onto the first stack of the same
    /// non-zero kind, adding its quantity, else into the first empty slot;
    /// when neither exists the item is dropped.
    pub fn add_item(&mut self, item: Item)
        requires
            add_item_fits(old(self).items@, item),
        ensures
            add_item_post(old(self).items@, item, final(self).items@),
            final(self).items@.len() == old(self).items@.len(),
            final(self).active_slot == old(self).active_slot,
            kinds_unique(old(self).items@) ==> kinds_unique(final(self).items@),
    {
        let n = self.items.len();
        for i in 0..n
            invariant
                n == self.items@.len(),
                self.items@ == old(self).items@,
                self.active_slot == old(self).active_slot,
                add_item_fits(old(self).items@, item),
                forall|k: int| 0 <= k < i ==> !stacks_with(#[trigger] self.items@[k], item.item_id),
        {
            if self.items[i].item_id == item.item_id && self.items[i].item_id != 0 {
                proof {
                    assert(is_first_stack(old(self).items@, item.item_id, i as int));
                }
                let q = self.items[i].quantity + item.quantity;
                self.items[i].quantity = q;
                proof {
                    assert(self.items@ == old(self).items@.update(i as int, Item {
                        name: old(self).items@[i as int].name,
                        item_id: old(self).items@[i as int].item_id,
                        quantity: q,
                    }));
                    if kinds_unique(old(self).items@) {
                        lemma_add_item_keeps_kinds_unique(old(self).items@, item, self.items@);
                    }
                }
                return;
            }
        }
        for i in 0..n
            invariant
                n == self.items@.len(),
                self.items@ == old(self).items@,
                self.active_slot == old(self).active_slot,
                !has_stack(old(self).items@, item.item_id),
                forall|k: int| 0 <= k < i ==> (#[trigger] self.items@[k]).item_id != 0,
        {
            if self.items[i].item_id == 0 {
                proof {
                    assert(is_first_empty(old(self).items@, i as int));
                }
                self.items[i] = item;
                proof {
                    if kinds_unique(old(self).items@) {
                        lemma_add_item_keeps_kinds_unique(old(self).items@, item, self.items@);
                    }
                }
                return;
            }
        }
    }
}

/// Scrolling the selection by `delta` and then by `-delta` selects the slot
/// selected before.
pub proof fn lemma_scroll_undo(slot: int, delta: int, n: int)
    requires
        0 <= slot < n,
    ensures
        scrolled_slot(scrolled_slot(slot, delta, n), -delta, n) == slot,
{
    let s1 = scrolled_slot(slot, delta, n);
    vstd::arithmetic::div_mod::lemma_add_mod_noop(slot - delta, delta, n);
    vstd::arithmetic::div_mod::lemma_mod_twice(slot - delta, n);
    vstd::arithmetic::div_mod::lemma_small_mod(slot as nat, n as nat);
    vstd::arithmetic::div_mod::lemma_mod_twice(delta, n);
    vstd::arithmetic::div_mod::lemma_add_mod_noop(s1, delta, n);
}

/// Scrolling by 1 selects the slot before, and by -1 the slot after, wrapping
/// around the ends of the row.
pub proof fn lemma_scroll_by_one(slot: int, n: int)
    requires
        0 <= slot < n,
    ensures
        scrolled_slot(slot, 1, n) == (if slot == 0 { n - 1 } else { slot - 1 }),
        scrolled_slot(slot, -1, n) == (if slot == n - 1 { 0 } else { slot + 1 }),
{
    if slot == 0 {
        vstd::arithmetic::div_mod::lemma_fundamental_div_mod_converse(-1, n, -1, n - 1);
    } else {
        vstd::arithmetic::div_mod::lemma_small_mod((slot - 1) as nat, n as nat);
    }
    if slot == n - 1 {
        vstd::arithmetic::div_mod::lemma_mod_self_0(n);
    } else {
        vstd::arithmetic::div_mod::lemma_small_mod((slot + 1) as nat, n as nat);
    }
}

/// Scrolling keeps a well-formed inventory well formed.
pub proof fn lemma_scroll_keeps_wf(inv: Inventory, delta: int)
    requires
        inv.wf(),
    ensures
        0 <= scrolled_slot((inv.active_slot as isize) as int, delta, inv.items@.len() as int) < INVENTORY_SLOTS,
{
}

/// No two slots hold the same non-zero item kind.
pub open spec fn kinds_unique(items: Seq<Item>) -> bool {
    forall|a: int, b: int| 0 <= a < b < items.len() && (#[trigger] items[a]).item_id != 0 ==>
        items[a].item_id != (#[trigger] items[b]).item_id
}

/// Adding an item keeps each non-zero item kind in at most one slot.
pub proof fn lemma_add_item_keeps_kinds_unique(old: Seq<Item>, item: Item, new: Seq<Item>)
    requires
        add_item_post(old, item, new),
        kinds_unique(old),
    ensures
        kinds_unique(new),
{
    if has_stack(old, item.item_id) {
        let i = choose|i: int| #[trigger] is_first_stack(old, item.item_id, i) && new == old.update(i,
            Item { name: old[i].name, item_id: old[i].item_id, quantity: (old[i].quantity + item.quantity) as usize });
        assert forall|a: int, b: int| 0 <= a < b < new.len() && (#[trigger] new[a]).item_id != 0 implies
            new[a].item_id != (#[trigger] new[b]).item_id by {
            assert(new[a].item_id == old[a].item_id && new[b].item_id == old[b].item_id);
        }
    } else if has_empty(old) {
        let i = choose|i: int| #[trigger] is_first_empty(old, i) && new == old.update(i, item);
        assert forall|a: int, b: int| 0 <= a < b < new.len() && (#[trigger] new[a]).item_id != 0 implies
            new[a].item_id != (#[trigger] new[b]).item_id by {
            if a == i {
                assert(!stacks_with(old[b], item.item_id));
            } else if b == i {
                assert(!stacks_with(old[a], item.item_id));
            }
        }
    }
}

/// What one slot adds to the total count of kind `id`.
pub open spec fn count_in(it: Item, id: usize) -> int {
    if it.item_id == id { it.quantity as int } else { 0 }
}

/// Total count of items of kind `id` over all slots.
pub open spec fn total_of(items: Seq<Item>, id: usize) -> int
    decreases items.len(),
{
    if items.len() == 0 {
        0
    } else {
        total_of(items.drop_last(), id) + count_in(items.last(), id)
    }
}

proof fn lemma_total_update(items: Seq<Item>, i: int, x: Item, id: usize)
    requires
        0 <= i < items.len(),
    ensures
        total_of(items.update(i, x), id) == total_of(items, id) - count_in(items[i], id) + count_in(x, id),
    decreases items.len(),
{
    let u = items.update(i, x);
    if i == items.len() - 1 {
        assert(u.drop_last() =~= items.drop_last());
    } else {
        assert(u.drop_last() =~= items.drop_last().update(i, x));
        lemma_total_update(items.drop_last(), i, x, id);
    }
}

/// Adding an item that finds a place (a stack of its kind or an empty slot)
/// raises the total of its kind by its quantity; every other non-zero kind
/// keeps its total, and an item with no place changes nothing.
pub proof fn lemma_add_item_conserves(old: Seq<Item>, item: Item, new: Seq<Item>, id: usize)
    requires
        add_item_post(old, item, new),
        add_item_fits(old, item),
        id != 0,
    ensures
        total_of(new, id) == total_of(old, id) + (
            if id == item.item_id && (has_stack(old, id) || has_empty(old)) { item.quantity as int } else { 0 }),
{
    if has_stack(old, item.item_id) {
        let i = choose|i: int| #[trigger] is_first_stack(old, item.item_id, i) && new == old.update(i,
            Item { name: old[i].name, item_id: old[i].item_id, quantity: (old[i].quantity + item.quantity) as usize });
        lemma_total_update(old, i, new[i], id);
    } else if has_empty(old) {
        let i = choose|i: int| #[trigger] is_first_empty(old, i) && new == old.update(i, item);
        lemma_total_update(old, i, item, id);
    }
}

} // verus!
