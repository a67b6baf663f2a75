//! The actor: identity keys, current room, position, inventory and rail.

use vstd::prelude::*;

verus! {

use crate::{
    attrs_contain, ck_inv_empty, get_attrs, get_item, is_first_empty, next_pos, spec_next_pos,
    MvCatalog, MvError, MvTileAttribute, Pos,
};
use crate::room::{
    box_count_from, box_index_from, door_index_from, note_index_from, MvDoor, MvNote, MvRoom,
    CLOSED_DOOR_TILE, CONTAINER_CAP, FLOOR_TILE, NOTE_TILE, OPEN_DOOR_TILE,
};

/// Capacity of the actor's inventory.
pub const INV_CAP: usize = 7;

/// Capacity of the actor's rail of equippable items.
pub const RAIL_CAP: usize = 3;

/// Starting position of a new actor: the center of the default 7 by 7 room.
pub const DEFAULT_START_POS: Pos = 24;

/// The movable entity: identity, current room reference, position,
/// inventory slots and equipped-item slots.
#[derive(Clone, Debug, PartialEq)]
pub struct MvPlayer {
    /// `keys[0]` is the actor's own identity key.
    pub keys: Vec<String>,
    /// Identity key of the room the actor is currently in.
    pub room_id: String,
    /// Flat index of the actor's cell in the current room.
    pub position: Pos,
    /// Items the actor has taken; `0` marks an empty slot.
    pub inventory: Vec<u8>,
    /// Equippable items; `0` marks an empty slot.
    pub rail: Vec<u8>,
    /// Feature names the actor currently has access to.
    pub features: Vec<String>,
}

impl MvPlayer {
    /// Well-formedness: fixed-capacity inventory and rail.
    pub open spec fn wf(self) -> bool {
        self.inventory@.len() == INV_CAP && self.rail@.len() == RAIL_CAP
    }

    /// Instantiates a new actor with the given identity key and default
    /// values: the default room named after the key, the center position,
    /// and empty inventory, rail and feature list.
    pub fn new(default_key: String) -> (p: MvPlayer)
        ensures
            p.wf(),
            p.keys@.len() == 1,
            p.keys@[0] == default_key,
            p.room_id == default_key,
            p.position == DEFAULT_START_POS,
            p.inventory@ =~= seq![0u8, 0, 0, 0, 0, 0, 0],
            p.rail@ =~= seq![0u8, 0, 0],
            p.features@.len() == 1,
            p.features@[0]@ == "mv"@,
    {
        MvPlayer {
            keys: vec![default_key.clone()],
            room_id: default_key,
            position: DEFAULT_START_POS,
            inventory: vec![0, 0, 0, 0, 0, 0, 0],
            rail: vec![0, 0, 0],
            features: vec![String::from_str("mv")],
        }
    }
}

/// `a` and `b` agree on every field but the position.
pub open spec fn same_but_position(a: MvPlayer, b: MvPlayer) -> bool {
    &&& a.keys == b.keys
    &&& a.room_id == b.room_id
    &&& a.inventory == b.inventory
    &&& a.rail == b.rail
    &&& a.features == b.features
}

/// `a` and `b` agree on every field but the tile grid.
pub open spec fn same_but_tiles(a: MvRoom, b: MvRoom) -> bool {
    &&& a.keys == b.keys
    &&& a.doors == b.doors
    &&& a.width == b.width
    &&& a.notes == b.notes
    &&& a.containers == b.containers
}

/// Tile id that backfills a vacated cell: the open-door id where a door
/// is registered, the note id where a note is, the default floor id
/// otherwise.
pub open spec fn spec_backfill(doors: Seq<MvDoor>, notes: Seq<MvNote>, pos: int) -> u8 {
    if door_index_from(doors, pos, 0) is Some {
        OPEN_DOOR_TILE
    } else if note_index_from(notes, pos, 0) is Some {
        NOTE_TILE
    } else {
        FLOOR_TILE
    }
}

/// A movement step from `pos` in direction `d` hits a tile id that the
/// catalog cannot resolve: the destination tile, the tile beyond a
/// pushable destination, or (when the destination is passable) the tile
/// under the actor.
pub open spec fn mv_step_err(pos: int, tiles: Seq<u8>, width: int, db: MvCatalog, d: char) -> bool {
    let next = spec_next_pos(d, pos, width, tiles.len() as int);
    let nt = tiles[next];
    if !db.known(nt) {
        true
    } else if db.attrs(nt).contains(MvTileAttribute::NoPassThrough) {
        db.attrs(nt).contains(MvTileAttribute::Push) && !db.known(
            tiles[spec_next_pos(d, next, width, tiles.len() as int)],
        )
    } else {
        !db.known(tiles[pos])
    }
}

/// The actor standing at `pos` on `tiles` is on an `OpenDoor` tile whose
/// registered door exits in direction `d`: stepping `d` leaves the room.
pub open spec fn door_exit(
    pos: int,
    tiles: Seq<u8>,
    doors: Seq<MvDoor>,
    db: MvCatalog,
    d: char,
) -> bool {
    &&& db.has(tiles[pos], MvTileAttribute::OpenDoor)
    &&& door_index_from(doors, pos, 0) is Some
    &&& doors[door_index_from(doors, pos, 0)->Some_0].exit_direction == d
}

/// What one movement step does, assuming `!mv_step_err(..)`: the new
/// position, the new tile grid, and the door stepped through if the step
/// triggers a room transition.
///
/// A solid (`NoPassThrough`) destination blocks the step unless it is
/// pushable and the cell beyond it is free, in which case the pushed tile
/// advances one cell and its old cell is backfilled.  A passable
/// destination advances the actor, except that moving in the exit
/// direction of the registered door under an actor standing on an
/// `OpenDoor` tile leaves the room instead (the grid is then untouched;
/// the transition is applied by `MvPlayer::enter_room` once the target
/// room is loaded).
pub open spec fn mv_step_result(
    pos: int,
    tiles: Seq<u8>,
    width: int,
    doors: Seq<MvDoor>,
    notes: Seq<MvNote>,
    db: MvCatalog,
    d: char,
) -> (int, Seq<u8>, Option<MvDoor>) {
    let len = tiles.len() as int;
    let next = spec_next_pos(d, pos, width, len);
    let nt = tiles[next];
    if db.attrs(nt).contains(MvTileAttribute::NoPassThrough) {
        if db.attrs(nt).contains(MvTileAttribute::Push) {
            let next2 = spec_next_pos(d, next, width, len);
            if db.attrs(tiles[next2]).contains(MvTileAttribute::NoPassThrough) {
                (pos, tiles, None)
            } else {
                (next, tiles.update(next2, nt).update(next, spec_backfill(doors, notes, next)), None)
            }
        } else {
            (pos, tiles, None)
        }
    } else {
        if door_exit(pos, tiles, doors, db, d) {
            (pos, tiles, Some(doors[door_index_from(doors, pos, 0)->Some_0]))
        } else {
            (next, tiles, None)
        }
    }
}

/// Moving into a passable tile advances the actor onto it: whenever the
/// destination tile lacks `NoPassThrough` and the step is not an exit
/// through an open door, the new position is exactly the destination
/// index.
pub proof fn lemma_passable_step_advances(
    pos: int,
    tiles: Seq<u8>,
    width: int,
    doors: Seq<MvDoor>,
    notes: Seq<MvNote>,
    db: MvCatalog,
    d: char,
)
    requires
        db.known(tiles[spec_next_pos(d, pos, width, tiles.len() as int)]),
        !db.attrs(tiles[spec_next_pos(d, pos, width, tiles.len() as int)]).contains(
            MvTileAttribute::NoPassThrough,
        ),
        !door_exit(pos, tiles, doors, db, d),
    ensures
        mv_step_result(pos, tiles, width, doors, notes, db, d).0 == spec_next_pos(
            d,
            pos,
            width,
            tiles.len() as int,
        ),
        mv_step_result(pos, tiles, width, doors, notes, db, d).1 == tiles,
{
}

/// Pushing a pushable tile against a solid one moves nothing: when the
/// destination carries both `Push` and `NoPassThrough` and the cell
/// beyond it carries `NoPassThrough` (with or without `Push`), both the
/// grid and the actor's position are left unchanged.
pub proof fn lemma_blocked_push_is_noop(
    pos: int,
    tiles: Seq<u8>,
    width: int,
    doors: Seq<MvDoor>,
    notes: Seq<MvNote>,
    db: MvCatalog,
    d: char,
)
    requires
        db.attrs(tiles[spec_next_pos(d, pos, width, tiles.len() as int)]).contains(
            MvTileAttribute::NoPassThrough,
        ),
        db.attrs(tiles[spec_next_pos(d, pos, width, tiles.len() as int)]).contains(
            MvTileAttribute::Push,
        ),
        db.attrs(
            tiles[spec_next_pos(
                d,
                spec_next_pos(d, pos, width, tiles.len() as int),
                width,
                tiles.len() as int,
            )],
        ).contains(MvTileAttribute::NoPassThrough),
    ensures
        mv_step_result(pos, tiles, width, doors, notes, db, d) == (pos, tiles, None::<MvDoor>),
{
}

impl MvPlayer {
    /// Resolves one direction of a movement command against the current
    /// room and catalog, mutating the position and (on a push) the grid.
    /// A step through an open door mutates nothing and returns the door;
    /// the caller loads the target room and applies the transition with
    /// `enter_room`.
    pub fn mv_step(&mut self, room: &mut MvRoom, db: &MvCatalog, d: char) -> (r: Result<
        Option<MvDoor>,
        MvError,
    >)
        requires
            old(room).wf(),
            old(self).position < old(room).tiles@.len(),
        ensures
            final(room).wf(),
            final(self).position < final(room).tiles@.len(),
            same_but_position(*old(self), *final(self)),
            same_but_tiles(*old(room), *final(room)),
            match r {
                Err(e) => {
                    &&& e == MvError::UnknownTile
                    &&& mv_step_err(
                        old(self).position as int,
                        old(room).tiles@,
                        old(room).width as int,
                        *db,
                        d,
                    )
                    &&& *final(self) == *old(self)
                    &&& *final(room) == *old(room)
                },
                Ok(exit) => {
                    &&& !mv_step_err(
                        old(self).position as int,
                        old(room).tiles@,
                        old(room).width as int,
                        *db,
                        d,
                    )
                    &&& final(self).position as int == mv_step_result(
                        old(self).position as int,
                        old(room).tiles@,
                        old(room).width as int,
                        old(room).doors@,
                        old(room).notes@,
                        *db,
                        d,
                    ).0
                    &&& final(room).tiles@ == mv_step_result(
                        old(self).position as int,
                        old(room).tiles@,
                        old(room).width as int,
                        old(room).doors@,
                        old(room).notes@,
                        *db,
                        d,
                    ).1
                    &&& exit == mv_step_result(
                        old(self).position as int,
                        old(room).tiles@,
                        old(room).width as int,
                        old(room).doors@,
                        old(room).notes@,
                        *db,
                        d,
                    ).2
                },
            },
    {
        let next = next_pos(d, &self.position, room);
        let nt = room.tiles[next];
        let solid: bool;
        let pushable: bool;
        match get_attrs(db, nt) {
            Ok(attrs_next) => {
                solid = attrs_contain(attrs_next, MvTileAttribute::NoPassThrough);
                pushable = attrs_contain(attrs_next, MvTileAttribute::Push);
            },
            Err(e) => {
                return Err(e);
            },
        }
        if solid {
            if pushable {
                let next_2 = next_pos(d, &next, room);
                let nt2 = room.tiles[next_2];
                let blocked: bool;
                match get_attrs(db, nt2) {
                    Ok(attrs_next_2) => {
                        blocked = attrs_contain(attrs_next_2, MvTileAttribute::NoPassThrough);
                    },
                    Err(e) => {
                        return Err(e);
                    },
                }
                if blocked {
                    Ok(None)
                } else {
                    let backfill = room.backfill_tile(next);
                    room.tiles[next_2] = nt;
                    room.tiles[next] = backfill;
                    self.position = next;
                    Ok(None)
                }
            } else {
                Ok(None)
            }
        } else {
            let ht = room.tiles[self.position];
            let on_open_door: bool;
            match get_attrs(db, ht) {
                Ok(attrs_here) => {
                    on_open_door = attrs_contain(attrs_here, MvTileAttribute::OpenDoor);
                },
                Err(e) => {
                    return Err(e);
                },
            }
            if on_open_door {
                match room.find_door(self.position) {
                    Some(di) => {
                        if room.doors[di].exit_direction == d {
                            let door = &room.doors[di];
                            return Ok(
                                Some(
                                    MvDoor {
                                        here: door.here,
                                        there: door.there,
                                        exit_map: door.exit_map.clone(),
                                        exit_direction: door.exit_direction,
                                    },
                                ),
                            );
                        }
                    },
                    None => {},
                }
            }
            self.position = next;
            Ok(None)
        }
    }

    /// Applies a room transition: the loaded target room replaces the
    /// current one, the actor arrives at the door's far side, and the
    /// actor's room reference becomes the new room's identity key.
    pub fn enter_room(&mut self, room: &mut MvRoom, next_room: MvRoom, there: Pos)
        requires
            next_room.wf(),
            there < next_room.tiles@.len(),
            next_room.keys.allow@.len() > 0,
        ensures
            *final(room) == next_room,
            final(self).position == there,
            final(self).room_id == next_room.keys.allow@[0],
            final(self).keys == old(self).keys,
            final(self).inventory == old(self).inventory,
            final(self).rail == old(self).rail,
            final(self).features == old(self).features,
    {
        self.room_id = next_room.keys.allow[0].clone();
        self.position = there;
        *room = next_room;
    }
}

/// How far a movement command gets before it needs the caller.
#[derive(Clone, Debug, PartialEq)]
pub enum MvProgress {
    /// Every direction was processed.
    Finished,
    /// The step at `next_index - 1` exits through `door`: the caller
    /// loads the room `door.exit_map`, applies `enter_room`, and resumes
    /// `mv` at `next_index`.
    NeedsRoom { next_index: usize, door: MvDoor },
}

/// What a whole direction sequence does from index `i` on, within one
/// room: the final position and grid, plus the door and resume index of
/// the first room transition if one is hit.  Stops at the first step
/// whose tile ids the catalog cannot resolve, erring with the position
/// and grid reached by then (steps already taken are kept).
pub open spec fn mv_run(
    pos: int,
    tiles: Seq<u8>,
    width: int,
    doors: Seq<MvDoor>,
    notes: Seq<MvNote>,
    db: MvCatalog,
    dirs: Seq<char>,
    i: int,
) -> Result<(int, Seq<u8>, Option<(int, MvDoor)>), (int, Seq<u8>)>
    decreases dirs.len() - i,
{
    if i < 0 || i >= dirs.len() {
        Ok((pos, tiles, None))
    } else if mv_step_err(pos, tiles, width, db, dirs[i]) {
        Err((pos, tiles))
    } else {
        let stepped = mv_step_result(pos, tiles, width, doors, notes, db, dirs[i]);
        match stepped.2 {
            Some(door) => Ok((stepped.0, stepped.1, Some((i + 1, door)))),
            None => mv_run(stepped.0, stepped.1, width, doors, notes, db, dirs, i + 1),
        }
    }
}

impl MvPlayer {
    /// Handles moving the player in a room: processes `directions` in
    /// order from `start`, feeding each step's result into the next.
    /// Returns early with the pending door when a step exits the room,
    /// and with `UnknownTile` when a step meets a tile id the catalog
    /// cannot resolve (mutations already applied are kept).
    pub fn mv(
        &mut self,
        room: &mut MvRoom,
        db: &MvCatalog,
        directions: &Vec<char>,
        start: usize,
    ) -> (r: Result<MvProgress, MvError>)
        requires
            old(room).wf(),
            old(self).position < old(room).tiles@.len(),
        ensures
            final(room).wf(),
            final(self).position < final(room).tiles@.len(),
            same_but_position(*old(self), *final(self)),
            same_but_tiles(*old(room), *final(room)),
            match r {
                Err(e) => {
                    &&& e == MvError::UnknownTile
                    &&& mv_run(
                        old(self).position as int,
                        old(room).tiles@,
                        old(room).width as int,
                        old(room).doors@,
                        old(room).notes@,
                        *db,
                        directions@,
                        start as int,
                    ) == Err::<(int, Seq<u8>, Option<(int, MvDoor)>), _>(
                        (final(self).position as int, final(room).tiles@),
                    )
                },
                Ok(progress) => match progress {
                    MvProgress::Finished => mv_run(
                        old(self).position as int,
                        old(room).tiles@,
                        old(room).width as int,
                        old(room).doors@,
                        old(room).notes@,
                        *db,
                        directions@,
                        start as int,
                    ) == Ok::<_, (int, Seq<u8>)>(
                        (final(self).position as int, final(room).tiles@, None::<(int, MvDoor)>),
                    ),
                    MvProgress::NeedsRoom { next_index, door } => {
                        &&& start < next_index <= directions@.len()
                        &&& mv_run(
                            old(self).position as int,
                            old(room).tiles@,
                            old(room).width as int,
                            old(room).doors@,
                            old(room).notes@,
                            *db,
                            directions@,
                            start as int,
                        ) == Ok::<_, (int, Seq<u8>)>(
                            (
                                final(self).position as int,
                                final(room).tiles@,
                                Some((next_index as int, door)),
                            ),
                        )
                    },
                },
            },
    {
        if start >= directions.len() {
            return Ok(MvProgress::Finished);
        }
        let mut i: usize = start;
        while i < directions.len()
            invariant
                room.wf(),
                self.position < room.tiles@.len(),
                start <= i <= directions@.len(),
                same_but_position(*old(self), *self),
                same_but_tiles(*old(room), *room),
                mv_run(
                    old(self).position as int,
                    old(room).tiles@,
                    old(room).width as int,
                    old(room).doors@,
                    old(room).notes@,
                    *db,
                    directions@,
                    start as int,
                ) == mv_run(
                    self.position as int,
                    room.tiles@,
                    old(room).width as int,
                    old(room).doors@,
                    old(room).notes@,
                    *db,
                    directions@,
                    i as int,
                ),
            decreases directions@.len() - i,
        {
            let d = directions[i];
            match self.mv_step(room, db, d) {
                Err(e) => {
                    return Err(e);
                },
                Ok(Some(door)) => {
                    return Ok(MvProgress::NeedsRoom { next_index: i + 1, door });
                },
                Ok(None) => {},
            }
            i = i + 1;
        }
        Ok(MvProgress::Finished)
    }
}

/// What an inspection of the tile one step away reports; the front end
/// turns this into a message.
#[derive(Clone, Debug, PartialEq)]
pub enum CkOutcome {
    /// A peek without interaction: the actor's position, the direction
    /// looked in, and the raw tile id found there.
    Peek { position: Pos, direction: char, target: u8 },
    /// A note was read at `position`.
    ReadNote { target: u8, position: Pos, description: String, note: String },
    /// A closed, unlocked door was opened.
    DoorOpened { target: u8, description: String },
    /// An open door was closed.
    DoorClosed { target: u8, description: String },
    /// Nothing to interact with: the tile's description alone.
    Inspected { target: u8, description: String },
}

impl MvPlayer {
    /// With `interact` false, reports the raw tile id one step in
    /// `direction`; with `interact` true, resolves the tile's
    /// interaction: reading a note, toggling a door open or closed, or
    /// reporting the description.  Dispatch is attribute-driven (`Read`,
    /// `Door`, `OpenDoor`), with the literal note and door tile ids as a
    /// fallback for catalogs that do not assign these attributes.
    pub fn ck(&self, db: &MvCatalog, interact: bool, room: &mut MvRoom, direction: char) -> (r:
        Result<CkOutcome, MvError>)
        requires
            old(room).wf(),
            self.position < old(room).tiles@.len(),
        ensures
            final(room).wf(),
            same_but_tiles(*old(room), *final(room)),
            final(room).tiles@.len() == old(room).tiles@.len(),
            ({
                let next = spec_next_pos(
                    direction,
                    self.position as int,
                    old(room).width as int,
                    old(room).tiles@.len() as int,
                );
                let target = old(room).tiles@[next];
                if !interact {
                    &&& r == Ok::<_, MvError>(
                        CkOutcome::Peek { position: self.position, direction, target },
                    )
                    &&& *final(room) == *old(room)
                } else if !db.known(target) {
                    &&& r == Err::<CkOutcome, _>(MvError::UnknownTile)
                    &&& *final(room) == *old(room)
                } else if db.attrs(target).contains(MvTileAttribute::Read) || target == NOTE_TILE {
                    match note_index_from(old(room).notes@, next, 0) {
                        Some(ni) => {
                            &&& r == Ok::<_, MvError>(
                                CkOutcome::ReadNote {
                                    target,
                                    position: next as usize,
                                    description: db.item_of(target).description,
                                    note: old(room).notes@[ni].content,
                                },
                            )
                            &&& *final(room) == *old(room)
                        },
                        None => {
                            &&& r == Err::<CkOutcome, _>(MvError::MissingNote)
                            &&& *final(room) == *old(room)
                        },
                    }
                } else if db.attrs(target).contains(MvTileAttribute::Door) || target
                    == CLOSED_DOOR_TILE {
                    &&& r == Ok::<_, MvError>(
                        CkOutcome::DoorOpened { target, description: db.item_of(target).description },
                    )
                    &&& final(room).tiles@ == old(room).tiles@.update(next, OPEN_DOOR_TILE)
                } else if db.attrs(target).contains(MvTileAttribute::OpenDoor) || target
                    == OPEN_DOOR_TILE {
                    &&& r == Ok::<_, MvError>(
                        CkOutcome::DoorClosed { target, description: db.item_of(target).description },
                    )
                    &&& final(room).tiles@ == old(room).tiles@.update(next, CLOSED_DOOR_TILE)
                } else {
                    &&& r == Ok::<_, MvError>(
                        CkOutcome::Inspected { target, description: db.item_of(target).description },
                    )
                    &&& *final(room) == *old(room)
                }
            }),
    {
        let next = next_pos(direction, &self.position, room);
        let target = room.tiles[next];
        if !interact {
            return Ok(CkOutcome::Peek { position: self.position, direction, target });
        }
        let item = match get_item(db, target) {
            Ok(it) => it,
            Err(e) => {
                return Err(e);
            },
        };
        let is_read = attrs_contain(&item.attributes, MvTileAttribute::Read) || target == NOTE_TILE;
        let is_door = attrs_contain(&item.attributes, MvTileAttribute::Door) || target
            == CLOSED_DOOR_TILE;
        let is_open = attrs_contain(&item.attributes, MvTileAttribute::OpenDoor) || target
            == OPEN_DOOR_TILE;
        let description = item.description.clone();
        if is_read {
            match room.find_note(next) {
                Some(ni) => Ok(
                    CkOutcome::ReadNote {
                        target,
                        position: next,
                        description,
                        note: room.notes[ni].content.clone(),
                    },
                ),
                None => Err(MvError::MissingNote),
            }
        } else if is_door {
            room.tiles[next] = OPEN_DOOR_TILE;
            Ok(CkOutcome::DoorOpened { target, description })
        } else if is_open {
            room.tiles[next] = CLOSED_DOOR_TILE;
            Ok(CkOutcome::DoorClosed { target, description })
        } else {
            Ok(CkOutcome::Inspected { target, description })
        }
    }
}

impl MvPlayer {
    /// Takes the item in slot `container_index` of the container one step
    /// in `direction` into the actor's lowest empty inventory slot,
    /// zeroing the container slot.  Fails with `NoContainer` when the
    /// destination tile cannot store items or no container record maps to
    /// it, with `AmbiguousContainer` when more than one does, and with
    /// `InventoryFull` when no inventory slot is empty; a failed call
    /// mutates nothing.
    pub fn take(
        &mut self,
        room: &mut MvRoom,
        db: &MvCatalog,
        direction: char,
        container_index: usize,
    ) -> (r: Result<u8, MvError>)
        requires
            old(room).wf(),
            old(self).wf(),
            old(self).position < old(room).tiles@.len(),
            container_index < CONTAINER_CAP,
        ensures
            final(room).wf(),
            final(self).wf(),
            final(room).tiles == old(room).tiles,
            final(room).keys == old(room).keys,
            final(room).doors == old(room).doors,
            final(room).notes == old(room).notes,
            final(room).width == old(room).width,
            final(self).position == old(self).position,
            final(self).keys == old(self).keys,
            final(self).room_id == old(self).room_id,
            final(self).rail == old(self).rail,
            final(self).features == old(self).features,
            ({
                let next = spec_next_pos(
                    direction,
                    old(self).position as int,
                    old(room).width as int,
                    old(room).tiles@.len() as int,
                );
                let t = old(room).tiles@[next];
                let cnt = box_count_from(old(room).containers@, next, 0);
                if !db.known(t) {
                    &&& r == Err::<u8, MvError>(MvError::UnknownTile)
                    &&& *final(self) == *old(self)
                    &&& *final(room) == *old(room)
                } else if !db.attrs(t).contains(MvTileAttribute::StoreItems) {
                    &&& r == Err::<u8, MvError>(MvError::NoContainer)
                    &&& *final(self) == *old(self)
                    &&& *final(room) == *old(room)
                } else if cnt == 0 {
                    &&& r == Err::<u8, MvError>(MvError::NoContainer)
                    &&& *final(self) == *old(self)
                    &&& *final(room) == *old(room)
                } else if cnt > 1 {
                    &&& r == Err::<u8, MvError>(MvError::AmbiguousContainer)
                    &&& *final(self) == *old(self)
                    &&& *final(room) == *old(room)
                } else if forall|j: int|
                    0 <= j < old(self).inventory@.len() ==> old(self).inventory@[j] != 0 {
                    &&& r == Err::<u8, MvError>(MvError::InventoryFull)
                    &&& *final(self) == *old(self)
                    &&& *final(room) == *old(room)
                } else {
                    let ci = box_index_from(old(room).containers@, next, 0)->Some_0;
                    let item = old(room).containers@[ci].inventory@[container_index as int];
                    &&& r == Ok::<u8, MvError>(item)
                    &&& exists|j: int|
                        #[trigger] is_first_empty(old(self).inventory@, j) && final(self).inventory@ == old(self).inventory@.update(j, item)
                    &&& final(room).containers@.len() == old(room).containers@.len()
                    &&& forall|k: int|
                        0 <= k < old(room).containers@.len() && k != ci ==> final(room).containers@[k] == old(room).containers@[k]
                    &&& final(room).containers@[ci].pos == old(room).containers@[ci].pos
                    &&& final(room).containers@[ci].inventory@ == old(room).containers@[ci].inventory@.update(container_index as int, 0u8)
                }
            }),
    {
        let next = next_pos(direction, &self.position, room);
        let t = room.tiles[next];
        let has_store: bool;
        match get_attrs(db, t) {
            Ok(a) => {
                has_store = attrs_contain(a, MvTileAttribute::StoreItems);
            },
            Err(e) => {
                return Err(e);
            },
        }
        if !has_store {
            return Err(MvError::NoContainer);
        }
        let (cnt, first) = room.find_box(next);
        let ci = match first {
            Some(ci) => ci,
            None => {
                return Err(MvError::NoContainer);
            },
        };
        if cnt > 1 {
            return Err(MvError::AmbiguousContainer);
        }
        let j = match ck_inv_empty(&mut self.inventory) {
            Some(j) => j,
            None => {
                return Err(MvError::InventoryFull);
            },
        };
        let item = room.containers[ci].inventory[container_index];
        self.inventory[j] = item;
        room.containers[ci].inventory[container_index] = 0;
        Ok(item)
    }

    /// Exchanges the actor's inventory item at `inv_index` with the floor
    /// tile one step in `direction`.  The inventory item must carry
    /// `Drop` (else `NotDroppable`) and the floor tile must carry `Take`
    /// (else `NotTakeable`); a failed call mutates nothing.
    pub fn swap_with_floor(
        &mut self,
        room: &mut MvRoom,
        db: &MvCatalog,
        direction: char,
        inv_index: usize,
    ) -> (r: Result<(), MvError>)
        requires
            old(room).wf(),
            old(self).wf(),
            old(self).position < old(room).tiles@.len(),
            inv_index < INV_CAP,
        ensures
            final(room).wf(),
            final(self).wf(),
            same_but_tiles(*old(room), *final(room)),
            final(room).tiles@.len() == old(room).tiles@.len(),
            final(self).position == old(self).position,
            final(self).keys == old(self).keys,
            final(self).room_id == old(self).room_id,
            final(self).rail == old(self).rail,
            final(self).features == old(self).features,
            ({
                let next = spec_next_pos(
                    direction,
                    old(self).position as int,
                    old(room).width as int,
                    old(room).tiles@.len() as int,
                );
                let item = old(self).inventory@[inv_index as int];
                let floor_t = old(room).tiles@[next];
                if !db.known(item) {
                    &&& r == Err::<(), MvError>(MvError::UnknownTile)
                    &&& *final(self) == *old(self)
                    &&& *final(room) == *old(room)
                } else if !db.attrs(item).contains(MvTileAttribute::Drop) {
                    &&& r == Err::<(), MvError>(MvError::NotDroppable)
                    &&& *final(self) == *old(self)
                    &&& *final(room) == *old(room)
                } else if !db.known(floor_t) {
                    &&& r == Err::<(), MvError>(MvError::UnknownTile)
                    &&& *final(self) == *old(self)
                    &&& *final(room) == *old(room)
                } else if !db.attrs(floor_t).contains(MvTileAttribute::Take) {
                    &&& r == Err::<(), MvError>(MvError::NotTakeable)
                    &&& *final(self) == *old(self)
                    &&& *final(room) == *old(room)
                } else {
                    &&& r == Ok::<(), MvError>(())
                    &&& final(self).inventory@ == old(self).inventory@.update(
                        inv_index as int,
                        floor_t,
                    )
                    &&& final(room).tiles@ == old(room).tiles@.update(next, item)
                }
            }),
    {
        let next = next_pos(direction, &self.position, room);
        let item = self.inventory[inv_index];
        let droppable: bool;
        match get_attrs(db, item) {
            Ok(a) => {
                droppable = attrs_contain(a, MvTileAttribute::Drop);
            },
            Err(e) => {
                return Err(e);
            },
        }
        if !droppable {
            return Err(MvError::NotDroppable);
        }
        let floor_t = room.tiles[next];
        let takeable: bool;
        match get_attrs(db, floor_t) {
            Ok(a) => {
                takeable = attrs_contain(a, MvTileAttribute::Take);
            },
            Err(e) => {
                return Err(e);
            },
        }
        if !takeable {
            return Err(MvError::NotTakeable);
        }
        self.inventory[inv_index] = floor_t;
        room.tiles[next] = item;
        Ok(())
    }

    /// Exchanges the actor's inventory item at `inv_index` with slot
    /// `container_index` of the unique container one step in `direction`.
    /// The inventory item must carry `Drop` (else `NotDroppable`) and the
    /// container item must carry `Take` (else `NotTakeable`); a missing
    /// container fails with `NoContainer`, a duplicated position with
    /// `AmbiguousContainer`; a failed call mutates nothing.
    pub fn swap_with_container(
        &mut self,
        room: &mut MvRoom,
        db: &MvCatalog,
        direction: char,
        inv_index: usize,
        container_index: usize,
    ) -> (r: Result<(), MvError>)
        requires
            old(room).wf(),
            old(self).wf(),
            old(self).position < old(room).tiles@.len(),
            inv_index < INV_CAP,
            container_index < CONTAINER_CAP,
        ensures
            final(room).wf(),
            final(self).wf(),
            final(room).tiles == old(room).tiles,
            final(room).keys == old(room).keys,
            final(room).doors == old(room).doors,
            final(room).notes == old(room).notes,
            final(room).width == old(room).width,
            final(self).position == old(self).position,
            final(self).keys == old(self).keys,
            final(self).room_id == old(self).room_id,
            final(self).rail == old(self).rail,
            final(self).features == old(self).features,
            ({
                let next = spec_next_pos(
                    direction,
                    old(self).position as int,
                    old(room).width as int,
                    old(room).tiles@.len() as int,
                );
                let cnt = box_count_from(old(room).containers@, next, 0);
                let ci = box_index_from(old(room).containers@, next, 0)->Some_0;
                let item = old(self).inventory@[inv_index as int];
                let citem = old(room).containers@[ci].inventory@[container_index as int];
                if cnt == 0 {
                    &&& r == Err::<(), MvError>(MvError::NoContainer)
                    &&& *final(self) == *old(self)
                    &&& *final(room) == *old(room)
                } else if cnt > 1 {
                    &&& r == Err::<(), MvError>(MvError::AmbiguousContainer)
                    &&& *final(self) == *old(self)
                    &&& *final(room) == *old(room)
                } else if !db.known(item) {
                    &&& r == Err::<(), MvError>(MvError::UnknownTile)
                    &&& *final(self) == *old(self)
                    &&& *final(room) == *old(room)
                } else if !db.attrs(item).contains(MvTileAttribute::Drop) {
                    &&& r == Err::<(), MvError>(MvError::NotDroppable)
                    &&& *final(self) == *old(self)
                    &&& *final(room) == *old(room)
                } else if !db.known(citem) {
                    &&& r == Err::<(), MvError>(MvError::UnknownTile)
                    &&& *final(self) == *old(self)
                    &&& *final(room) == *old(room)
                } else if !db.attrs(citem).contains(MvTileAttribute::Take) {
                    &&& r == Err::<(), MvError>(MvError::NotTakeable)
                    &&& *final(self) == *old(self)
                    &&& *final(room) == *old(room)
                } else {
                    &&& r == Ok::<(), MvError>(())
                    &&& final(self).inventory@ == old(self).inventory@.update(
                        inv_index as int,
                        citem,
                    )
                    &&& final(room).containers@.len() == old(room).containers@.len()
                    &&& forall|k: int|
                        0 <= k < old(room).containers@.len() && k != ci ==> final(room).containers@[k] == old(room).containers@[k]
                    &&& final(room).containers@[ci].pos == old(room).containers@[ci].pos
                    &&& final(room).containers@[ci].inventory@ == old(room).containers@[ci].inventory@.update(container_index as int, item)
                }
            }),
    {
        let next = next_pos(direction, &self.position, room);
        let (cnt, first) = room.find_box(next);
        let ci = match first {
            Some(ci) => ci,
            None => {
                return Err(MvError::NoContainer);
            },
        };
        if cnt > 1 {
            return Err(MvError::AmbiguousContainer);
        }
        let item = self.inventory[inv_index];
        let droppable: bool;
        match get_attrs(db, item) {
            Ok(a) => {
                droppable = attrs_contain(a, MvTileAttribute::Drop);
            },
            Err(e) => {
                return Err(e);
            },
        }
        if !droppable {
            return Err(MvError::NotDroppable);
        }
        let citem = room.containers[ci].inventory[container_index];
        let takeable: bool;
        match get_attrs(db, citem) {
            Ok(a) => {
                takeable = attrs_contain(a, MvTileAttribute::Take);
            },
            Err(e) => {
                return Err(e);
            },
        }
        if !takeable {
            return Err(MvError::NotTakeable);
        }
        self.inventory[inv_index] = citem;
        room.containers[ci].inventory[container_index] = item;
        Ok(())
    }
}

/// `haystack` holds a string whose characters equal `needle`.
pub open spec fn seq_has_string(haystack: Seq<String>, needle: Seq<char>) -> bool {
    exists|j: int| 0 <= j < haystack.len() && (#[trigger] haystack[j])@ == needle
}

/// Some guest key is among the host's keys.
pub open spec fn any_shared_key(guest: Seq<String>, host: Seq<String>) -> bool {
    exists|i: int| 0 <= i < guest.len() && seq_has_string(host, (#[trigger] guest[i])@)
}

/// One of `keys` equals `k`.
fn keys_contain(keys: &Vec<String>, k: &String) -> (b: bool)
    ensures
        b == seq_has_string(keys@, k@),
{
    let mut i: usize = 0;
    while i < keys.len()
        invariant
            i <= keys@.len(),
            forall|j: int| 0 <= j < i ==> (#[trigger] keys@[j])@ != k@,
        decreases keys@.len() - i,
    {
        if keys[i].eq(k) {
            return true;
        }
        i = i + 1;
    }
    false
}

/// Whether any of the guest's keys appears among the host's keys.
pub fn host_has_key(guest_keys: Vec<String>, host_keys: Vec<String>) -> (b: bool)
    ensures
        b == any_shared_key(guest_keys@, host_keys@),
{
    let mut out: bool = false;
    let mut i: usize = 0;
    while i < guest_keys.len()
        invariant
            i <= guest_keys@.len(),
            out == exists|j: int|
                0 <= j < i && seq_has_string(host_keys@, (#[trigger] guest_keys@[j])@),
        decreases guest_keys@.len() - i,
    {
        if keys_contain(&host_keys, &guest_keys[i]) {
            out = true;
        }
        i = i + 1;
    }
    out
}

} // verus!
