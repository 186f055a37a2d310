//! Trade goods and the stations that stock them: display data only.
use vstd::prelude::*;

verus! {

/// A kind of trade good.
#[derive(Clone, Copy, Debug, PartialEq, Eq, Structural)]
pub enum ItemType {
    EnergyCell,
    IronOre,
    Silica,
}

/// The display name of a kind of good.
pub open spec fn item_name(t: ItemType) -> Seq<char> {
    match t {
        ItemType::EnergyCell => "Energy Cell"@,
        ItemType::IronOre => "Iron Ore"@,
        ItemType::Silica => "Silica"@,
    }
}

/// A stock of one kind of good.
#[derive(Clone, Debug)]
pub struct Item {
    pub item_type: ItemType,
    pub name: String,
    /// Price of one unit.
    pub value: usize,
    pub quantity: usize,
}

impl Item {
    /// A stock of `quantity` units of `item_type` at `value` each, named after
    /// its kind.
    pub fn new(item_type: ItemType, value: usize, quantity: usize) -> (r: Item)
        ensures
            r.item_type == item_type,
            r.name@ == item_name(item_type),
            r.value == value,
            r.quantity == quantity,
    {
        let name = match item_type {
            ItemType::EnergyCell => String::from_str("Energy Cell"),
            ItemType::IronOre => String::from_str("Iron Ore"),
            ItemType::Silica => String::from_str("Silica"),
        };
        proof {
            reveal_strlit("Energy Cell");
            reveal_strlit("Iron Ore");
            reveal_strlit("Silica");
        }
        Item { item_type, name, value, quantity }
    }
}

/// The goods a station stocks.
#[derive(Clone, Debug)]
pub struct Inventory {
    pub items: Vec<Item>,
    /// The number of stocks, recorded when the inventory was made.
    pub size: usize,
}

impl Inventory {
    pub fn new(items: Vec<Item>) -> (r: Inventory)
        ensures
            r.items@ == items@,
            r.size == items@.len(),
    {
        let size = items.len();
        Inventory { items, size }
    }
}

/// A named trade station and its stock.
#[derive(Clone, Debug)]
pub struct Station {
    pub name: String,
    pub inventory: Inventory,
}

impl Station {
    pub fn new(name: String, inventory: Inventory) -> (r: Station)
        ensures
            r.name == name,
            r.inventory == inventory,
    {
        Station { name, inventory }
    }
}

} // verus!
