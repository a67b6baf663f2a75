//! Rooms: a rectangular grid of tile ids plus door, note and container
//! registries and an access-key pair.

use vstd::prelude::*;

verus! {

use crate::{get_item, MvCatalog, MvError, MvRGB, Pos};

/// Color of the single-pixel actor overlay in a rendered map.
pub const ACTOR_RGB: MvRGB = [0, 200, 150];

/// Capacity of a container's inventory.
pub const CONTAINER_CAP: usize = 3;

/// Tile id used to backfill a vacated cell.
pub const FLOOR_TILE: u8 = 1;

/// Tile id of a closed, unlocked door.
pub const CLOSED_DOOR_TILE: u8 = 4;

/// Tile id of an open door.
pub const OPEN_DOOR_TILE: u8 = 5;

/// Tile id of a readable note.
pub const NOTE_TILE: u8 = 8;

/// Controls inter-room travel: stepping off this door leads into another room.
#[derive(Clone, Debug, PartialEq)]
pub struct MvDoor {
    /// Position of this door in the current room.
    pub here: Pos,
    /// Position at which the actor arrives in the adjacent room.
    pub there: Pos,
    /// Identity key of the room this door leads to.
    pub exit_map: String,
    /// Direction the actor must move to exit through this door.
    pub exit_direction: char,
}

/// A readable note lying at a position of the room.
#[derive(Clone, Debug, PartialEq)]
pub struct MvNote {
    pub pos: Pos,
    pub content: String,
}

/// A storage container at a position of the room.
#[derive(Clone, Debug, PartialEq)]
pub struct MvBox {
    pub pos: Pos,
    pub inventory: Vec<u8>,
}

/// Access keys of a room: the denylist is consulted first, then the
/// allowlist; `allow[0]` is the room's own identity key.
#[derive(Clone, Debug, PartialEq)]
pub struct MvRoomKeys {
    pub deny: Vec<String>,
    pub allow: Vec<String>,
}

/// A rectangular grid of tile ids plus its registries.
#[derive(Clone, Debug, PartialEq)]
pub struct MvRoom {
    pub keys: MvRoomKeys,
    pub doors: Vec<MvDoor>,
    pub width: usize,
    pub notes: Vec<MvNote>,
    pub tiles: Vec<u8>,
    pub containers: Vec<MvBox>,
}

impl MvRoom {
    /// Well-formedness: a positive width that divides the tile count, and
    /// every registered position within the grid.
    pub open spec fn wf(self) -> bool {
        &&& 0 < self.width
        &&& 0 < self.tiles@.len()
        &&& self.tiles@.len() as int % (self.width as int) == 0
        &&& self.tiles@.len() + self.width < usize::MAX
        &&& forall|i: int|
            0 <= i < self.doors@.len() ==> (#[trigger] self.doors@[i]).here < self.tiles@.len()
        &&& forall|i: int|
            0 <= i < self.notes@.len() ==> (#[trigger] self.notes@[i]).pos < self.tiles@.len()
        &&& forall|i: int|
            0 <= i < self.containers@.len() ==> (#[trigger] self.containers@[i]).pos
                < self.tiles@.len() && self.containers@[i].inventory@.len() == CONTAINER_CAP
    }

    /// The default room: a 7 by 7 walled chamber with a passable interior.
    pub open spec fn default_tiles() -> Seq<u8> {
        seq![
            2u8, 2, 2, 2, 2, 2, 2,
            2, 1, 1, 1, 1, 1, 2,
            2, 1, 1, 1, 1, 1, 2,
            2, 1, 1, 1, 1, 1, 2,
            2, 1, 1, 1, 1, 1, 2,
            2, 1, 1, 1, 1, 1, 2,
            2, 2, 2, 2, 2, 2, 2,
        ]
    }

    /// Creates the default walled 7 by 7 room, allowlisting `default_key`
    /// as the room's own identity.
    pub fn new(default_key: String) -> (r: MvRoom)
        ensures
            r.wf(),
            r.width == 7,
            r.tiles@ == MvRoom::default_tiles(),
            r.doors@.len() == 0,
            r.notes@.len() == 0,
            r.containers@.len() == 0,
            r.keys.deny@.len() == 0,
            r.keys.allow@.len() == 1,
            r.keys.allow@[0] == default_key,
    {
        let r = MvRoom {
            keys: MvRoomKeys { deny: Vec::new(), allow: vec![default_key] },
            width: 7,
            doors: Vec::new(),
            notes: Vec::new(),
            containers: Vec::new(),
            tiles: vec![
                2, 2, 2, 2, 2, 2, 2,
                2, 1, 1, 1, 1, 1, 2,
                2, 1, 1, 1, 1, 1, 2,
                2, 1, 1, 1, 1, 1, 2,
                2, 1, 1, 1, 1, 1, 2,
                2, 1, 1, 1, 1, 1, 2,
                2, 2, 2, 2, 2, 2, 2,
            ],
        };
        proof {
            assert(r.tiles@ =~= MvRoom::default_tiles());
        }
        r
    }

    /// Index of the first door registered at `pos`, if any.
    pub open spec fn door_at(self, pos: int) -> Option<int> {
        door_index_from(self.doors@, pos, 0)
    }

    /// Index of the first note registered at `pos`, if any.
    pub open spec fn note_at(self, pos: int) -> Option<int> {
        note_index_from(self.notes@, pos, 0)
    }

    /// Index of the first container registered at `pos`, if any.
    pub open spec fn box_at(self, pos: int) -> Option<int> {
        box_index_from(self.containers@, pos, 0)
    }

    /// How many container records map to `pos`.
    pub open spec fn box_count(self, pos: int) -> int {
        box_count_from(self.containers@, pos, 0)
    }

    /// Tile id used to backfill the cell a pushed tile vacates: the
    /// open-door id where a door is registered there, the note id where a
    /// note is, the default floor id otherwise.
    pub open spec fn backfill_id(self, pos: int) -> u8 {
        if self.door_at(pos) is Some {
            OPEN_DOOR_TILE
        } else if self.note_at(pos) is Some {
            NOTE_TILE
        } else {
            FLOOR_TILE
        }
    }

    /// Number of rows of the grid.
    pub fn height(&self) -> (h: Pos)
        requires
            0 < self.width,
        ensures
            h == self.tiles@.len() as int / self.width as int,
    {
        self.tiles.len() / self.width
    }

    /// Finds the unique door registered at `pos`.
    pub fn find_door(&self, pos: Pos) -> (r: Option<usize>)
        ensures
            match r {
                Some(i) => self.door_at(pos as int) == Some(i as int) && i < self.doors@.len()
                    && self.doors@[i as int].here == pos,
                None => self.door_at(pos as int) is None,
            },
    {
        let mut i: usize = 0;
        while i < self.doors.len()
            invariant
                i <= self.doors@.len(),
                self.door_at(pos as int) == door_index_from(self.doors@, pos as int, i as int),
            decreases self.doors@.len() - i,
        {
            if self.doors[i].here == pos {
                return Some(i);
            }
            i = i + 1;
        }
        None
    }

    /// Finds the note registered at `pos`.
    pub fn find_note(&self, pos: Pos) -> (r: Option<usize>)
        ensures
            match r {
                Some(i) => self.note_at(pos as int) == Some(i as int) && i < self.notes@.len()
                    && self.notes@[i as int].pos == pos,
                None => self.note_at(pos as int) is None,
            },
    {
        let mut i: usize = 0;
        while i < self.notes.len()
            invariant
                i <= self.notes@.len(),
                self.note_at(pos as int) == note_index_from(self.notes@, pos as int, i as int),
            decreases self.notes@.len() - i,
        {
            if self.notes[i].pos == pos {
                return Some(i);
            }
            i = i + 1;
        }
        None
    }

    /// Counts the container records at `pos` and returns the first, if any.
    pub fn find_box(&self, pos: Pos) -> (r: (usize, Option<usize>))
        ensures
            r.0 as int == self.box_count(pos as int),
            match r.1 {
                Some(i) => self.box_at(pos as int) == Some(i as int) && i < self.containers@.len()
                    && self.containers@[i as int].pos == pos && r.0 > 0,
                None => self.box_at(pos as int) is None && r.0 == 0,
            },
    {
        let mut i: usize = 0;
        let mut cnt: usize = 0;
        let mut first: Option<usize> = None;
        while i < self.containers.len()
            invariant
                i <= self.containers@.len(),
                cnt <= i,
                self.box_count(pos as int) == cnt + box_count_from(
                    self.containers@,
                    pos as int,
                    i as int,
                ),
                match first {
                    None => cnt == 0 && self.box_at(pos as int) == box_index_from(
                        self.containers@,
                        pos as int,
                        i as int,
                    ),
                    Some(f) => cnt > 0 && self.box_at(pos as int) == Some(f as int) && f
                        < self.containers@.len() && self.containers@[f as int].pos == pos,
                },
            decreases self.containers@.len() - i,
        {
            if self.containers[i].pos == pos {
                cnt = cnt + 1;
                if first.is_none() {
                    first = Some(i);
                }
            }
            i = i + 1;
        }
        proof {
            lemma_box_count_from_bound(self.containers@, pos as int, i as int);
        }
        (cnt, first)
    }

    /// Computes the per-cell colors of a rendered map, row-major: each
    /// cell shows its tile's catalog color, except the actor's cell,
    /// which shows the actor overlay color.  The rendering collaborator
    /// consumes this grid.
    pub fn tile_colors(&self, db: &MvCatalog, position: Pos) -> (r: Result<Vec<MvRGB>, MvError>)
        ensures
            match r {
                Ok(colors) => {
                    &&& colors@.len() == self.tiles@.len()
                    &&& forall|i: int|
                        0 <= i < colors@.len() ==> #[trigger] colors@[i] == (
                        if i == position as int {
                            ACTOR_RGB
                        } else {
                            db.rgb_of(self.tiles@[i])
                        })
                    &&& forall|i: int|
                        0 <= i < self.tiles@.len() && i != position as int ==> db.known(
                            #[trigger] self.tiles@[i],
                        )
                },
                Err(e) => e == MvError::UnknownTile && exists|i: int|
                    0 <= i < self.tiles@.len() && i != position as int && !db.known(
                        #[trigger] self.tiles@[i],
                    ),
            },
    {
        let mut colors: Vec<MvRGB> = Vec::new();
        let mut i: usize = 0;
        while i < self.tiles.len()
            invariant
                i <= self.tiles@.len(),
                colors@.len() == i,
                forall|k: int|
                    0 <= k < i ==> #[trigger] colors@[k] == (if k == position as int {
                        ACTOR_RGB
                    } else {
                        db.rgb_of(self.tiles@[k])
                    }),
                forall|k: int|
                    0 <= k < i && k != position as int ==> db.known(#[trigger] self.tiles@[k]),
            decreases self.tiles@.len() - i,
        {
            if i == position {
                colors.push(ACTOR_RGB);
            } else {
                match get_item(db, self.tiles[i]) {
                    Ok(it) => {
                        colors.push(it.rgb);
                    },
                    Err(e) => {
                        return Err(e);
                    },
                }
            }
            i = i + 1;
        }
        Ok(colors)
    }

    /// Tile id that backfills the cell at `pos` when a pushed tile leaves it.
    pub fn backfill_tile(&self, pos: Pos) -> (t: u8)
        ensures
            t == self.backfill_id(pos as int),
    {
        if self.find_door(pos).is_some() {
            OPEN_DOOR_TILE
        } else if self.find_note(pos).is_some() {
            NOTE_TILE
        } else {
            FLOOR_TILE
        }
    }
}

/// First index at or after `i` of a door whose `here` is `pos`.
pub open spec fn door_index_from(doors: Seq<MvDoor>, pos: int, i: int) -> Option<int>
    decreases doors.len() - i,
{
    if i < 0 || i >= doors.len() {
        None
    } else if doors[i].here == pos {
        Some(i)
    } else {
        door_index_from(doors, pos, i + 1)
    }
}

/// First index at or after `i` of a note whose position is `pos`.
pub open spec fn note_index_from(notes: Seq<MvNote>, pos: int, i: int) -> Option<int>
    decreases notes.len() - i,
{
    if i < 0 || i >= notes.len() {
        None
    } else if notes[i].pos == pos {
        Some(i)
    } else {
        note_index_from(notes, pos, i + 1)
    }
}

/// First index at or after `i` of a container whose position is `pos`.
pub open spec fn box_index_from(boxes: Seq<MvBox>, pos: int, i: int) -> Option<int>
    decreases boxes.len() - i,
{
    if i < 0 || i >= boxes.len() {
        None
    } else if boxes[i].pos == pos {
        Some(i)
    } else {
        box_index_from(boxes, pos, i + 1)
    }
}

/// How many containers at or after `i` sit at position `pos`.
pub open spec fn box_count_from(boxes: Seq<MvBox>, pos: int, i: int) -> int
    decreases boxes.len() - i,
{
    if i < 0 || i >= boxes.len() {
        0
    } else {
        (if boxes[i].pos == pos {
            1int
        } else {
            0int
        }) + box_count_from(boxes, pos, i + 1)
    }
}

/// A tail count is never negative.
pub proof fn lemma_box_count_from_bound(boxes: Seq<MvBox>, pos: int, i: int)
    ensures
        0 <= box_count_from(boxes, pos, i),
    decreases boxes.len() - i,
{
    if 0 <= i < boxes.len() {
        lemma_box_count_from_bound(boxes, pos, i + 1);
    }
}

} // verus!
