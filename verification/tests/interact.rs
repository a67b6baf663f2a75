use mvgrid::player::{CkOutcome, MvPlayer};
use mvgrid::room::{MvBox, MvNote, MvRoom};
use mvgrid::{DbItem, MvCatalog, MvError, MvTileAttribute};

fn item(desc: &str, attributes: Vec<MvTileAttribute>) -> DbItem {
    DbItem { description: desc.to_string(), rgb: [0, 0, 0], attributes }
}

fn base_catalog() -> MvCatalog {
    let mut db = MvCatalog::new();
    db.set_tile(0, item("null", vec![MvTileAttribute::Null]));
    db.set_tile(1, item("floor", vec![MvTileAttribute::Take]));
    db.set_tile(2, item("wall", vec![MvTileAttribute::NoPassThrough]));
    db.set_tile(3, item("workbench", vec![MvTileAttribute::NoPassThrough]));
    db.set_tile(4, item("closed door", vec![MvTileAttribute::NoPassThrough, MvTileAttribute::Door]));
    db.set_tile(5, item("open door", vec![MvTileAttribute::OpenDoor]));
    db.set_tile(
        7,
        item("cardboard box", vec![MvTileAttribute::NoPassThrough, MvTileAttribute::StoreItems]),
    );
    db.set_tile(8, item("note", vec![MvTileAttribute::NoPassThrough, MvTileAttribute::Read]));
    db.set_tile(
        10,
        item("scanner upgrade", vec![MvTileAttribute::Take, MvTileAttribute::Drop, MvTileAttribute::Equip]),
    );
    db.set_tile(11, item("spare part", vec![MvTileAttribute::Take, MvTileAttribute::Drop]));
    db
}

fn setup() -> (MvPlayer, MvRoom, MvCatalog) {
    let player = MvPlayer::new("blake".to_string());
    let room = MvRoom::new("blake".to_string());
    (player, room, base_catalog())
}

#[test]
fn peek_reports_raw_tile_id_without_mutation() {
    let (player, mut room, db) = setup();
    room.tiles[17] = 4;
    let before = room.tiles.clone();
    let r = player.ck(&db, false, &mut room, 'n').expect("peek never fails");
    assert_eq!(r, CkOutcome::Peek { position: 24, direction: 'n', target: 4 });
    assert_eq!(room.tiles, before);
}

#[test]
fn peek_works_even_on_unregistered_tiles() {
    let (player, mut room, db) = setup();
    room.tiles[17] = 99;
    let r = player.ck(&db, false, &mut room, 'n').expect("peek never fails");
    assert_eq!(r, CkOutcome::Peek { position: 24, direction: 'n', target: 99 });
}

#[test]
fn interacting_with_closed_door_opens_it() {
    let (player, mut room, db) = setup();
    room.tiles[17] = 4;
    let r = player.ck(&db, true, &mut room, 'n').expect("known tile");
    assert_eq!(r, CkOutcome::DoorOpened { target: 4, description: "closed door".to_string() });
    assert_eq!(room.tiles[17], 5);
}

#[test]
fn interacting_with_open_door_closes_it() {
    let (player, mut room, db) = setup();
    room.tiles[17] = 5;
    let r = player.ck(&db, true, &mut room, 'n').expect("known tile");
    assert_eq!(r, CkOutcome::DoorClosed { target: 5, description: "open door".to_string() });
    assert_eq!(room.tiles[17], 4);
}

#[test]
fn interacting_with_note_reads_it() {
    let (player, mut room, db) = setup();
    room.tiles[17] = 8;
    room.notes.push(MvNote { pos: 17, content: "the cake is real".to_string() });
    let r = player.ck(&db, true, &mut room, 'n').expect("known tile");
    assert_eq!(
        r,
        CkOutcome::ReadNote {
            target: 8,
            position: 17,
            description: "note".to_string(),
            note: "the cake is real".to_string(),
        }
    );
    assert_eq!(room.tiles[17], 8);
}

#[test]
fn note_tile_without_registered_note_is_missing_note() {
    let (player, mut room, db) = setup();
    room.tiles[17] = 8;
    let e = player.ck(&db, true, &mut room, 'n').unwrap_err();
    assert_eq!(e, MvError::MissingNote);
}

#[test]
fn interacting_with_plain_tile_reports_description() {
    let (player, mut room, db) = setup();
    room.tiles[17] = 3;
    let r = player.ck(&db, true, &mut room, 'n').expect("known tile");
    assert_eq!(r, CkOutcome::Inspected { target: 3, description: "workbench".to_string() });
}

#[test]
fn interacting_with_unregistered_tile_is_unknown_tile() {
    let (player, mut room, db) = setup();
    room.tiles[17] = 99;
    let e = player.ck(&db, true, &mut room, 'n').unwrap_err();
    assert_eq!(e, MvError::UnknownTile);
}

#[test]
fn take_moves_one_item_into_lowest_empty_slot() {
    let (mut player, mut room, db) = setup();
    room.tiles[10] = 7;
    room.containers.push(MvBox { pos: 10, inventory: vec![5, 0, 0] });
    player.position = 17;
    let got = player.take(&mut room, &db, 'n', 0).expect("container present");
    assert_eq!(got, 5);
    assert_eq!(player.inventory, vec![5, 0, 0, 0, 0, 0, 0]);
    assert_eq!(room.containers[0].inventory, vec![0, 0, 0]);
}

#[test]
fn take_skips_occupied_slots() {
    let (mut player, mut room, db) = setup();
    room.tiles[10] = 7;
    room.containers.push(MvBox { pos: 10, inventory: vec![3, 11, 0] });
    player.position = 17;
    player.inventory = vec![9, 9, 0, 0, 0, 0, 0];
    let got = player.take(&mut room, &db, 'n', 1).expect("container present");
    assert_eq!(got, 11);
    assert_eq!(player.inventory, vec![9, 9, 11, 0, 0, 0, 0]);
    assert_eq!(room.containers[0].inventory, vec![3, 0, 0]);
}

#[test]
fn take_from_tile_without_store_items_is_no_container() {
    let (mut player, mut room, db) = setup();
    room.tiles[17] = 3;
    let e = player.take(&mut room, &db, 'n', 0).unwrap_err();
    assert_eq!(e, MvError::NoContainer);
}

#[test]
fn take_without_container_record_is_no_container() {
    let (mut player, mut room, db) = setup();
    room.tiles[17] = 7;
    let e = player.take(&mut room, &db, 'n', 0).unwrap_err();
    assert_eq!(e, MvError::NoContainer);
}

#[test]
fn take_with_duplicate_container_positions_is_ambiguous() {
    let (mut player, mut room, db) = setup();
    room.tiles[17] = 7;
    room.containers.push(MvBox { pos: 17, inventory: vec![5, 0, 0] });
    room.containers.push(MvBox { pos: 17, inventory: vec![3, 0, 0] });
    let e = player.take(&mut room, &db, 'n', 0).unwrap_err();
    assert_eq!(e, MvError::AmbiguousContainer);
    assert_eq!(room.containers[0].inventory, vec![5, 0, 0]);
    assert_eq!(room.containers[1].inventory, vec![3, 0, 0]);
}

#[test]
fn take_with_full_inventory_is_inventory_full() {
    let (mut player, mut room, db) = setup();
    room.tiles[17] = 7;
    room.containers.push(MvBox { pos: 17, inventory: vec![5, 0, 0] });
    player.inventory = vec![1, 1, 1, 1, 1, 1, 1];
    let e = player.take(&mut room, &db, 'n', 0).unwrap_err();
    assert_eq!(e, MvError::InventoryFull);
    assert_eq!(player.inventory, vec![1, 1, 1, 1, 1, 1, 1]);
    assert_eq!(room.containers[0].inventory, vec![5, 0, 0]);
}

#[test]
fn swap_with_floor_exchanges_item_and_tile() {
    let (mut player, mut room, db) = setup();
    player.inventory[2] = 10;
    let before_floor = room.tiles[17];
    player.swap_with_floor(&mut room, &db, 'n', 2).expect("droppable onto takeable floor");
    assert_eq!(player.inventory[2], before_floor);
    assert_eq!(room.tiles[17], 10);
}

#[test]
fn swap_with_floor_of_undroppable_item_mutates_nothing() {
    let (mut player, mut room, db) = setup();
    player.inventory[0] = 3;
    let inv_before = player.inventory.clone();
    let tiles_before = room.tiles.clone();
    let e = player.swap_with_floor(&mut room, &db, 'n', 0).unwrap_err();
    assert_eq!(e, MvError::NotDroppable);
    assert_eq!(player.inventory, inv_before);
    assert_eq!(room.tiles, tiles_before);
}

#[test]
fn swap_with_floor_onto_untakeable_tile_is_not_takeable() {
    let (mut player, mut room, db) = setup();
    player.inventory[0] = 10;
    room.tiles[17] = 3;
    let e = player.swap_with_floor(&mut room, &db, 'n', 0).unwrap_err();
    assert_eq!(e, MvError::NotTakeable);
    assert_eq!(player.inventory[0], 10);
    assert_eq!(room.tiles[17], 3);
}

#[test]
fn swap_with_container_exchanges_slots() {
    let (mut player, mut room, db) = setup();
    room.tiles[17] = 7;
    room.containers.push(MvBox { pos: 17, inventory: vec![10, 0, 0] });
    player.inventory[0] = 11;
    player.swap_with_container(&mut room, &db, 'n', 0, 0).expect("both attributes present");
    assert_eq!(player.inventory[0], 10);
    assert_eq!(room.containers[0].inventory, vec![11, 0, 0]);
}

#[test]
fn swap_with_container_without_record_is_no_container() {
    let (mut player, mut room, db) = setup();
    player.inventory[0] = 10;
    let e = player.swap_with_container(&mut room, &db, 'n', 0, 0).unwrap_err();
    assert_eq!(e, MvError::NoContainer);
}

#[test]
fn swap_with_container_duplicate_positions_is_ambiguous() {
    let (mut player, mut room, db) = setup();
    room.containers.push(MvBox { pos: 17, inventory: vec![10, 0, 0] });
    room.containers.push(MvBox { pos: 17, inventory: vec![11, 0, 0] });
    player.inventory[0] = 10;
    let e = player.swap_with_container(&mut room, &db, 'n', 0, 0).unwrap_err();
    assert_eq!(e, MvError::AmbiguousContainer);
}

#[test]
fn swap_with_container_of_undroppable_item_mutates_nothing() {
    let (mut player, mut room, db) = setup();
    room.containers.push(MvBox { pos: 17, inventory: vec![10, 0, 0] });
    player.inventory[0] = 3;
    let e = player.swap_with_container(&mut room, &db, 'n', 0, 0).unwrap_err();
    assert_eq!(e, MvError::NotDroppable);
    assert_eq!(player.inventory[0], 3);
    assert_eq!(room.containers[0].inventory, vec![10, 0, 0]);
}

#[test]
fn swap_with_container_of_untakeable_slot_item_is_not_takeable() {
    let (mut player, mut room, db) = setup();
    room.containers.push(MvBox { pos: 17, inventory: vec![3, 0, 0] });
    player.inventory[0] = 10;
    let e = player.swap_with_container(&mut room, &db, 'n', 0, 0).unwrap_err();
    assert_eq!(e, MvError::NotTakeable);
}
