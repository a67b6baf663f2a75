//! Movement and tile-interaction engine for a grid adventure: an actor
//! occupies a cell in a rectangular tile grid and issues directional
//! commands that are resolved against a shared tile-attribute catalog,
//! producing new positions, tile mutations, room transitions and
//! inventory transfers.

use vstd::prelude::*;

pub mod player;
pub mod room;

verus! {

/// Flat, zero-based index into a row-major tile grid.
pub type Pos = usize;

/// Capability flags a catalog entry can assign to a tile kind.
#[derive(Clone, Copy, Debug, PartialEq, Eq, Structural)]
pub enum MvTileAttribute {
    Null,
    NoPassThrough,
    Push,
    Door,
    Locked,
    OpenDoor,
    StoreItems,
    Take,
    Drop,
    Equip,
    Read,
    Write,
    State,
}

pub type MvTileAttributes = Vec<MvTileAttribute>;

/// Display color of a tile, as three RGB bytes.
pub type MvRGB = [u8; 3];

/// Everything a command can fail with.  Fatal kinds abort the command;
/// tile mutations already applied in memory are not rolled back.
#[derive(Clone, Copy, Debug, PartialEq, Eq, Structural)]
pub enum MvError {
    /// A tile id referenced by the room or an inventory is absent from the catalog.
    UnknownTile,
    /// A note tile was read but no note is registered at its position.
    MissingNote,
    /// No container occupies the addressed position (or the tile cannot store items).
    NoContainer,
    /// More than one container record maps to the addressed position.
    AmbiguousContainer,
    /// The actor's inventory has no empty slot.
    InventoryFull,
    /// The inventory item lacks the `Drop` attribute.
    NotDroppable,
    /// The destination slot's item lacks the `Take` attribute.
    NotTakeable,
    /// A load or store at the persistence boundary failed; no retry is attempted.
    PersistenceFailure,
}

/// One catalog entry: what a tile kind looks like and what it can do.
#[derive(Clone, Debug)]
pub struct DbItem {
    pub description: String,
    pub rgb: MvRGB,
    pub attributes: MvTileAttributes,
}

/// Shared catalog mapping a tile id to its entry; `items[id]` holds the
/// entry for tile id `id`, `None` where no entry is registered.
#[derive(Clone, Debug)]
pub struct MvCatalog {
    pub items: Vec<Option<DbItem>>,
}

impl MvCatalog {
    /// The catalog has an entry for tile id `id`.
    pub open spec fn known(self, id: u8) -> bool {
        (id as int) < self.items@.len() && self.items@[id as int] is Some
    }

    /// Attribute list of tile id `id` (meaningful only when `known(id)`).
    pub open spec fn attrs(self, id: u8) -> Seq<MvTileAttribute> {
        self.items@[id as int]->Some_0.attributes@
    }

    /// `id` is known and carries attribute `a`.
    pub open spec fn has(self, id: u8, a: MvTileAttribute) -> bool {
        self.known(id) && self.attrs(id).contains(a)
    }

    /// The whole catalog entry of tile id `id` (meaningful only when `known(id)`).
    pub open spec fn item_of(self, id: u8) -> DbItem {
        self.items@[id as int]->Some_0
    }

    /// Display color of tile id `id` (meaningful only when `known(id)`).
    pub open spec fn rgb_of(self, id: u8) -> MvRGB {
        self.items@[id as int]->Some_0.rgb
    }

    pub fn new() -> (c: MvCatalog)
        ensures
            c.items@.len() == 0,
    {
        MvCatalog { items: Vec::new() }
    }

    /// Registers (or replaces) the entry for tile id `id`, growing the
    /// table with empty slots as needed.
    pub fn set_tile(&mut self, id: u8, item: DbItem)
        ensures
            final(self).items@.len() == (if old(self).items@.len() > id as int + 1 {
                old(self).items@.len() as int
            } else {
                id as int + 1
            }),
            final(self).items@[id as int] == Some(item),
            forall|j: int|
                0 <= j < old(self).items@.len() && j != id as int ==> final(self).items@[j]
                    == old(self).items@[j],
            forall|j: int|
                old(self).items@.len() <= j < final(self).items@.len() && j != id as int
                    ==> final(self).items@[j] is None,
    {
        while self.items.len() <= id as usize
            invariant
                forall|j: int|
                    0 <= j < old(self).items@.len() ==> self.items@[j] == old(self).items@[j],
                forall|j: int|
                    old(self).items@.len() <= j < self.items@.len() ==> self.items@[j] is None,
                self.items@.len() >= old(self).items@.len(),
                self.items@.len() <= id as int + 1 || self.items@.len() == old(
                    self,
                ).items@.len(),
            decreases id as int + 1 - self.items@.len(),
        {
            self.items.push(None);
        }
        self.items[id as usize] = Some(item);
    }
}

/// Looks up the attribute list of tile id `item_id`; a tile id absent from
/// the catalog is a hard error.
pub fn get_attrs<'a>(db: &'a MvCatalog, item_id: u8) -> (r: Result<&'a MvTileAttributes, MvError>)
    ensures
        match r {
            Ok(a) => db.known(item_id) && a@ == db.attrs(item_id),
            Err(e) => e == MvError::UnknownTile && !db.known(item_id),
        },
{
    if (item_id as usize) < db.items.len() {
        match &db.items[item_id as usize] {
            Some(it) => Ok(&it.attributes),
            None => Err(MvError::UnknownTile),
        }
    } else {
        Err(MvError::UnknownTile)
    }
}

/// Result of a one-step directional move on a flat row-major grid of
/// `width` columns and `tile_count` cells, clamped at the grid edges.
/// Only `n`, `s`, `e`, `w` (either case) move; `.` and every other
/// character are a no-op.
pub open spec fn spec_next_pos(dir: char, pos: int, width: int, tile_count: int) -> int {
    if dir == 'n' || dir == 'N' {
        if pos > width - 1 {
            pos - width
        } else {
            pos
        }
    } else if dir == 's' || dir == 'S' {
        if pos < tile_count - 1 - width {
            pos + width
        } else {
            pos
        }
    } else if dir == 'e' || dir == 'E' {
        if (pos + 1) % width != 0 {
            pos + 1
        } else {
            pos
        }
    } else if dir == 'w' || dir == 'W' {
        if pos % width != 0 {
            pos - 1
        } else {
            pos
        }
    } else {
        pos
    }
}

/// A step from inside the grid lands inside the grid: for every position
/// `pos` of a well-formed grid, the move clamps at the edges rather than
/// wrapping or leaving the grid.
pub proof fn lemma_next_pos_in_range(dir: char, pos: int, width: int, tile_count: int)
    requires
        0 <= pos < tile_count,
        0 < width,
        tile_count % width == 0,
    ensures
        0 <= spec_next_pos(dir, pos, width, tile_count) < tile_count,
{
    if (dir == 'e' || dir == 'E') && (pos + 1) % width != 0 {
        assert(pos + 1 < tile_count) by {
            if pos + 1 == tile_count {
                assert((pos + 1) % width == 0);
            }
        }
    }
    if (dir == 'w' || dir == 'W') && pos % width != 0 {
        assert(pos != 0) by {
            vstd::arithmetic::div_mod::lemma_small_mod(0nat, width as nat);
        }
    }
}

/// The no-op direction `.` leaves every position unchanged.
pub proof fn lemma_next_pos_noop(pos: int, width: int, tile_count: int)
    ensures
        spec_next_pos('.', pos, width, tile_count) == pos,
{
}

/// Sets and returns the potential map index one step in `dir` from
/// `c_pos`, clamped at the edges of the grid of `data`.
pub fn next_pos(dir: char, c_pos: &Pos, data: &crate::room::MvRoom) -> (p: Pos)
    requires
        data.wf(),
        *c_pos < data.tiles@.len(),
    ensures
        p == spec_next_pos(dir, *c_pos as int, data.width as int, data.tiles@.len() as int),
        p < data.tiles@.len(),
{
    let potential_pos: Pos;
    match dir {
        'n' | 'N' => {
            potential_pos = if *c_pos >= data.width {
                *c_pos - data.width
            } else {
                *c_pos
            };
        },
        's' | 'S' => {
            potential_pos = if *c_pos + data.width + 1 < data.tiles.len() {
                *c_pos + data.width
            } else {
                *c_pos
            };
        },
        'e' | 'E' => {
            potential_pos = if (*c_pos + 1) % data.width != 0 {
                *c_pos + 1
            } else {
                *c_pos
            };
            proof {
                lemma_next_pos_in_range(dir, *c_pos as int, data.width as int, data.tiles@.len() as int);
            }
        },
        'w' | 'W' => {
            if *c_pos % data.width != 0 {
                proof {
                    assert(*c_pos != 0) by {
                        vstd::arithmetic::div_mod::lemma_small_mod(0nat, data.width as nat);
                    }
                }
                potential_pos = *c_pos - 1;
            } else {
                potential_pos = *c_pos;
            }
        },
        _ => {
            potential_pos = *c_pos;
        },
    }
    potential_pos
}

/// `i` is the lowest index of an empty (`0`) slot of `inv`.
pub open spec fn is_first_empty(inv: Seq<u8>, i: int) -> bool {
    &&& 0 <= i < inv.len()
    &&& inv[i] == 0
    &&& forall|j: int| 0 <= j < i ==> inv[j] != 0
}

/// Returns the index of the first free slot in the player's inventory,
/// or `None` when every slot is occupied.
pub fn ck_inv_empty(inventory: &mut Vec<u8>) -> (out: Option<usize>)
    ensures
        *final(inventory) == *old(inventory),
        match out {
            Some(i) => is_first_empty(old(inventory)@, i as int),
            None => forall|j: int| 0 <= j < old(inventory)@.len() ==> old(inventory)@[j] != 0,
        },
{
    let mut i: usize = 0;
    while i < inventory.len()
        invariant
            *inventory == *old(inventory),
            i <= inventory@.len(),
            forall|j: int| 0 <= j < i ==> inventory@[j] != 0,
        decreases inventory@.len() - i,
    {
        if inventory[i] == 0 {
            return Some(i);
        }
        i = i + 1;
    }
    None
}

/// Looks up the whole catalog entry of tile id `item_id`; a tile id
/// absent from the catalog is a hard error.
pub fn get_item<'a>(db: &'a MvCatalog, item_id: u8) -> (r: Result<&'a DbItem, MvError>)
    ensures
        match r {
            Ok(it) => db.known(item_id) && *it == db.item_of(item_id),
            Err(e) => e == MvError::UnknownTile && !db.known(item_id),
        },
{
    if (item_id as usize) < db.items.len() {
        match &db.items[item_id as usize] {
            Some(it) => Ok(it),
            None => Err(MvError::UnknownTile),
        }
    } else {
        Err(MvError::UnknownTile)
    }
}

/// `attrs` contains the attribute `a`.
pub fn attrs_contain(attrs: &MvTileAttributes, a: MvTileAttribute) -> (b: bool)
    ensures
        b == attrs@.contains(a),
{
    let mut i: usize = 0;
    while i < attrs.len()
        invariant
            i <= attrs@.len(),
            forall|j: int| 0 <= j < i ==> attrs@[j] != a,
        decreases attrs@.len() - i,
    {
        if attrs[i] == a {
            return true;
        }
        i = i + 1;
    }
    false
}

} // verus!
