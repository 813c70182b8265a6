use fox_arcade::character::{Character, Coord, SetupError};
use fox_arcade::direction::Direction;
use fox_arcade::gamemap::GameMap;
use fox_arcade::gamestate::GameState;
use fox_arcade::projectile::Roll;
use fox_arcade::sprite::Sprite;
use fox_arcade::state::State;

const NAMES: [&str; 9] =
    ["Stand1", "Stand2", "Walk1", "Walk2", "Jump", "Meteor", "Crouch", "LavaBall", "Apple"];

fn table_text(skip: &str) -> String {
    let mut t = String::new();
    for name in NAMES {
        if name != skip {
            t.push_str(&format!("{}:{}:0-0-1\n", name, name));
        }
    }
    t
}

fn map_of(tag: &str, rows: &[&str], sprites: usize) -> GameMap {
    let mut t = String::from("MapStart\n");
    for row in rows {
        t.push_str(row);
        t.push_str("\n");
    }
    t.push_str("MapEnd\nSpriteStart\n");
    for k in 0..sprites {
        t.push_str(&format!("T{}:c{}:0-0-1\n", k, k));
    }
    t.push_str("SpriteEnd\nBackgroundStart\n");
    t.push_str(tag);
    t.push_str("\nBackgroundEnd\n");
    GameMap::from_text(t).unwrap()
}

const EMPTY: &str = "00000000000000000000";
const FLOOR: &str = "22222222222222222222";

fn ground() -> [&'static str; 10] {
    [EMPTY, EMPTY, EMPTY, EMPTY, EMPTY, EMPTY, EMPTY, EMPTY, EMPTY, FLOOR]
}

fn fox_on(rows: &[&str]) -> Character {
    let table = Sprite::hash_from_text(table_text("")).ok().unwrap();
    Character::new(
        20,
        10,
        &table,
        map_of("start", &[], 16),
        map_of("play", rows, 17),
        map_of("end", &[], 35),
    )
    .unwrap()
}

fn fox() -> Character {
    fox_on(&ground())
}

fn playing() -> Character {
    let mut c = fox();
    c.start();
    c
}

fn setup_error(
    width: u32,
    height: u32,
    skip: &str,
    start: GameMap,
    play: GameMap,
    end: GameMap,
) -> SetupError {
    let table = Sprite::hash_from_text(table_text(skip)).ok().unwrap();
    Character::new(width, height, &table, start, play, end).unwrap_err()
}

const NO_ROLL: Roll = Roll { dir: 0, row: 0 };

#[test]
fn new_character_waits_on_the_opening_screen() {
    let c = fox();
    assert_eq!(c.get_state(), State::Stand);
    assert_eq!(c.last_state(), State::Stand);
    assert_eq!(c.get_dir(), Direction::Right);
    assert_eq!(c.game_state(), GameState::Start);
    assert_eq!(c.position(), Coord(9, 8));
    assert_eq!(c.score(), 0);
    assert_eq!(c.lives(), 2);
    assert_eq!(c.hazards().len(), 0);
    assert_eq!(c.collectibles().len(), 0);
    assert_eq!(c.active_map().bg, "start");
    assert_eq!(c.frame().colorset[0], "Stand1");
    assert_eq!(c.get_transition(), "Stand -> Stand");
    assert!(c.is_well_formed());
}

#[test]
fn new_takes_the_narrowest_field_that_holds_the_start_cell() {
    let table = Sprite::hash_from_text(table_text("")).ok().unwrap();
    let c = Character::new(
        10,
        10,
        &table,
        map_of("start", &[], 16),
        map_of("play", &ground(), 17),
        map_of("end", &[], 35),
    );
    assert!(c.is_ok());
}

#[test]
fn new_rejects_a_field_that_does_not_fit() {
    for (w, h) in [(9, 10), (21, 10), (20, 8), (20, 9), (20, 11), (0, 0), (u32::MAX, u32::MAX)] {
        assert_eq!(
            setup_error(
                w,
                h,
                "",
                map_of("start", &[], 16),
                map_of("play", &ground(), 17),
                map_of("end", &[], 35)
            ),
            SetupError::FieldSize
        );
    }
}

#[test]
fn new_rejects_a_table_without_a_sprite_of_the_game() {
    for name in NAMES {
        assert_eq!(
            setup_error(
                20,
                10,
                name,
                map_of("start", &[], 16),
                map_of("play", &ground(), 17),
                map_of("end", &[], 35)
            ),
            SetupError::MissingSprite,
            "{}",
            name
        );
    }
}

#[test]
fn new_rejects_maps_with_too_few_sprites() {
    assert_eq!(
        setup_error(
            20,
            10,
            "",
            map_of("start", &[], 15),
            map_of("play", &ground(), 17),
            map_of("end", &[], 35)
        ),
        SetupError::MapTiles
    );
    assert_eq!(
        setup_error(
            20,
            10,
            "",
            map_of("start", &[], 16),
            map_of("play", &ground(), 16),
            map_of("end", &[], 35)
        ),
        SetupError::MapTiles
    );
    assert_eq!(
        setup_error(
            20,
            10,
            "",
            map_of("start", &[], 16),
            map_of("play", &ground(), 17),
            map_of("end", &[], 34)
        ),
        SetupError::MapTiles
    );
}

#[test]
fn new_rejects_a_map_that_refers_to_a_missing_sprite() {
    let mut end = map_of("end", &[], 35);
    end.set_cell(4, 4, 36);
    assert_eq!(
        setup_error(20, 10, "", map_of("start", &[], 16), map_of("play", &ground(), 17), end),
        SetupError::MapTiles
    );
}

#[test]
fn new_reports_the_field_first_and_the_sprites_second() {
    assert_eq!(
        setup_error(5, 5, "Jump", map_of("start", &[], 0), map_of("play", &[], 0), map_of("end", &[], 0)),
        SetupError::FieldSize
    );
    assert_eq!(
        setup_error(
            20,
            10,
            "Jump",
            map_of("start", &[], 0),
            map_of("play", &[], 0),
            map_of("end", &[], 0)
        ),
        SetupError::MissingSprite
    );
}

#[test]
fn start_begins_play_and_changes_nothing_in_play() {
    let mut c = fox();
    c.start();
    assert_eq!(c.game_state(), GameState::Play);
    assert_eq!(c.get_state(), State::Stand);
    assert_eq!(c.active_map().bg, "play");
    c.arrow_right_down();
    c.start();
    assert_eq!(c.game_state(), GameState::Play);
    assert_eq!(c.get_state(), State::Walk(Direction::Right));
}

#[test]
fn stand_and_up_gives_jump_without_direction() {
    let mut c = playing();
    c.arrow_up_down();
    assert_eq!(c.get_state(), State::Jump(Direction::Neither));
    assert_eq!(c.last_state(), State::Stand);
}

#[test]
fn jump_right_and_right_up_gives_jump_without_direction() {
    let mut c = playing();
    c.arrow_right_down();
    assert_eq!(c.get_state(), State::Walk(Direction::Right));
    c.arrow_up_down();
    assert_eq!(c.get_state(), State::Jump(Direction::Right));
    c.arrow_right_up();
    assert_eq!(c.get_state(), State::Jump(Direction::Neither));
    assert_eq!(c.last_state(), State::Jump(Direction::Right));
}

#[test]
fn crouch_and_down_up_gives_stand() {
    let mut c = playing();
    c.arrow_down_down();
    assert_eq!(c.get_state(), State::Crouch);
    c.arrow_down_up();
    assert_eq!(c.get_state(), State::Stand);
    assert_eq!(c.last_state(), State::Crouch);
    assert_eq!(c.get_transition(), "Crouch -> Stand");
}

#[test]
fn the_same_events_give_the_same_states() {
    let mut a = playing();
    let mut b = playing();
    let events: [fn(&mut Character); 7] = [
        Character::arrow_left_down,
        Character::arrow_up_down,
        Character::arrow_left_up,
        Character::arrow_right_down,
        Character::arrow_down_down,
        Character::arrow_down_up,
        Character::arrow_right_up,
    ];
    for round in 0..3 {
        for (k, e) in events.iter().enumerate() {
            e(&mut a);
            e(&mut b);
            assert_eq!(a.get_state(), b.get_state(), "round {} event {}", round, k);
            assert_eq!(a.last_state(), b.last_state());
            a.update(NO_ROLL, NO_ROLL);
            b.update(NO_ROLL, NO_ROLL);
            assert_eq!(a.get_state(), b.get_state());
            assert_eq!(a.position(), b.position());
        }
    }
}

#[test]
fn side_keys_start_and_turn_a_walk() {
    let mut c = playing();
    c.arrow_left_down();
    assert_eq!(c.get_state(), State::Walk(Direction::Left));
    c.arrow_right_down();
    assert_eq!(c.get_state(), State::Walk(Direction::Right));
    assert_eq!(c.last_state(), State::Walk(Direction::Left));
    c.arrow_right_down();
    assert_eq!(c.get_state(), State::Walk(Direction::Right));
    assert_eq!(c.last_state(), State::Walk(Direction::Right));
}

#[test]
fn side_keys_steer_a_jump_and_a_fall() {
    let mut c = playing();
    c.arrow_up_down();
    c.arrow_left_down();
    assert_eq!(c.get_state(), State::Jump(Direction::Left));
    c.arrow_right_down();
    assert_eq!(c.get_state(), State::Jump(Direction::Right));
    c.set_state(State::Fall(Direction::Neither));
    c.arrow_left_down();
    assert_eq!(c.get_state(), State::Fall(Direction::Left));
    c.arrow_right_down();
    assert_eq!(c.get_state(), State::Fall(Direction::Right));
    c.arrow_left_up();
    assert_eq!(c.get_state(), State::Fall(Direction::Right));
    c.arrow_right_up();
    assert_eq!(c.get_state(), State::Fall(Direction::Neither));
}

#[test]
fn a_released_side_key_ends_the_walk_to_that_side() {
    let mut c = playing();
    c.arrow_left_down();
    c.arrow_right_up();
    assert_eq!(c.get_state(), State::Walk(Direction::Left));
    c.arrow_left_up();
    assert_eq!(c.get_state(), State::Stand);
    c.arrow_right_down();
    c.arrow_left_up();
    assert_eq!(c.get_state(), State::Walk(Direction::Right));
    c.arrow_right_up();
    assert_eq!(c.get_state(), State::Stand);
}

#[test]
fn a_walk_goes_on_while_the_other_side_key_is_held() {
    let mut c = playing();
    c.set_right_key(true);
    c.arrow_left_down();
    c.arrow_left_up();
    assert_eq!(c.get_state(), State::Walk(Direction::Left));
    c.set_right_key(false);
    c.arrow_left_up();
    assert_eq!(c.get_state(), State::Stand);
    c.set_left_key(true);
    c.arrow_right_down();
    c.arrow_right_up();
    assert_eq!(c.get_state(), State::Walk(Direction::Right));
}

#[test]
fn keys_without_an_edge_change_nothing() {
    let mut c = playing();
    c.arrow_left_up();
    c.arrow_right_up();
    c.arrow_down_up();
    assert_eq!(c.get_state(), State::Stand);
    assert_eq!(c.last_state(), State::Stand);
    c.arrow_down_down();
    assert_eq!(c.get_state(), State::Crouch);
    c.arrow_left_down();
    c.arrow_right_down();
    c.arrow_up_down();
    c.arrow_down_down();
    assert_eq!(c.get_state(), State::Crouch);
    assert_eq!(c.last_state(), State::Stand);
    c.set_state(State::Meteor);
    c.arrow_left_down();
    c.arrow_up_down();
    c.arrow_down_down();
    c.arrow_down_up();
    c.arrow_left_up();
    assert_eq!(c.get_state(), State::Meteor);
    c.set_state(State::Walk(Direction::Left));
    c.arrow_down_down();
    assert_eq!(c.get_state(), State::Walk(Direction::Left));
}

#[test]
fn down_in_the_air_gives_meteor() {
    let mut c = playing();
    c.arrow_up_down();
    c.arrow_down_down();
    assert_eq!(c.get_state(), State::Meteor);
    assert_eq!(c.get_transition(), "Jump -> Meteor");
    c.set_state(State::Fall(Direction::Left));
    c.arrow_down_down();
    assert_eq!(c.get_state(), State::Meteor);
    assert_eq!(c.get_transition(), "Fall -> Meteor");
}

#[test]
fn up_from_a_walk_keeps_the_direction() {
    let mut c = playing();
    c.arrow_left_down();
    c.arrow_up_down();
    assert_eq!(c.get_state(), State::Jump(Direction::Left));
    assert_eq!(c.get_transition(), "Walk -> Jump");
}

#[test]
fn set_state_records_the_state_before() {
    let mut c = playing();
    c.set_state(State::Walk(Direction::Left));
    c.set_state(State::Meteor);
    assert_eq!(c.get_state(), State::Meteor);
    assert_eq!(c.last_state(), State::Walk(Direction::Left));
    assert_eq!(c.get_transition(), "Walk -> Meteor");
}

#[test]
fn set_state_picks_the_animation_track() {
    let mut c = playing();
    c.set_state(State::Walk(Direction::Right));
    assert_eq!(c.frame().colorset[0], "Walk1");
    c.set_state(State::Jump(Direction::Neither));
    assert_eq!(c.frame().colorset[0], "Jump");
    c.set_state(State::Fall(Direction::Neither));
    assert_eq!(c.frame().colorset[0], "Jump");
    c.set_state(State::Meteor);
    assert_eq!(c.frame().colorset[0], "Meteor");
    c.set_state(State::Crouch);
    assert_eq!(c.frame().colorset[0], "Crouch");
    c.set_state(State::Stand);
    assert_eq!(c.frame().colorset[0], "Stand1");
}

#[test]
fn change_dir_mirrors_the_sprites_once_per_turn() {
    let mut c = playing();
    assert_eq!(c.frame().map.0[0][0], 1);
    c.change_dir(Direction::Right);
    assert_eq!(c.frame().map.0[0][0], 1);
    assert_eq!(c.frame().map.0[0][7], 0);
    c.change_dir(Direction::Left);
    assert_eq!(c.get_dir(), Direction::Left);
    assert_eq!(c.frame().map.0[0][0], 0);
    assert_eq!(c.frame().map.0[0][7], 1);
    c.change_dir(Direction::Left);
    assert_eq!(c.frame().map.0[0][7], 1);
    c.change_dir(Direction::Neither);
    assert_eq!(c.get_dir(), Direction::Neither);
    assert_eq!(c.frame().map.0[0][7], 1);
    c.change_dir(Direction::Left);
    assert_eq!(c.frame().map.0[0][7], 1);
    c.change_dir(Direction::Right);
    assert_eq!(c.frame().map.0[0][0], 1);
    assert_eq!(c.frame().map.0[0][7], 0);
}

#[test]
fn change_dir_mirrors_every_track() {
    let mut c = playing();
    c.change_dir(Direction::Left);
    for state in [
        State::Stand,
        State::Walk(Direction::Left),
        State::Jump(Direction::Left),
        State::Crouch,
    ] {
        c.set_state(state);
        assert_eq!(c.frame().map.0[0][7], 1);
        assert_eq!(c.frame().map.0[0][0], 0);
    }
    c.set_state(State::Meteor);
    assert_eq!(c.frame().map.0[0][7], 1);
}

#[test]
fn invert_side_mirrors_whatever_the_direction() {
    let mut c = playing();
    c.invert_side();
    assert_eq!(c.frame().map.0[0][7], 1);
    assert_eq!(c.get_dir(), Direction::Right);
    c.invert_side();
    assert_eq!(c.frame().map.0[0][0], 1);
}

#[test]
fn walking_on_does_not_mirror_again_and_turning_mirrors_once() {
    let mut c = playing();
    c.set_right_key(true);
    c.arrow_right_down();
    for _ in 0..6 {
        c.update(NO_ROLL, NO_ROLL);
        assert_eq!(c.frame().map.0[0][0], 1);
        assert_eq!(c.frame().map.0[0][7], 0);
    }
    c.set_right_key(false);
    c.set_left_key(true);
    c.arrow_left_down();
    for _ in 0..6 {
        c.update(NO_ROLL, NO_ROLL);
        assert_eq!(c.frame().map.0[0][0], 0);
        assert_eq!(c.frame().map.0[0][7], 1);
    }
    c.arrow_left_down();
    c.update(NO_ROLL, NO_ROLL);
    c.update(NO_ROLL, NO_ROLL);
    assert_eq!(c.frame().map.0[0][7], 1);
}

#[test]
fn key_latches_keep_a_walk_alive() {
    let mut c = playing();
    c.arrow_right_down();
    c.update(NO_ROLL, NO_ROLL);
    assert_eq!(c.get_state(), State::Stand);
    c.set_right_key(true);
    c.arrow_right_down();
    c.update(NO_ROLL, NO_ROLL);
    assert_eq!(c.get_state(), State::Walk(Direction::Right));
    c.set_right_key(false);
    c.set_left_key(true);
    c.update(NO_ROLL, NO_ROLL);
    assert_eq!(c.get_state(), State::Walk(Direction::Right));
    c.set_left_key(false);
    c.update(NO_ROLL, NO_ROLL);
    assert_eq!(c.get_state(), State::Stand);
}

#[test]
fn transition_text_names_both_states() {
    let mut c = playing();
    c.set_state(State::Jump(Direction::Left));
    assert_eq!(c.get_transition(), "Stand -> Jump");
    c.set_state(State::Fall(Direction::Left));
    assert_eq!(c.get_transition(), "Jump -> Fall");
    c.set_state(State::Walk(Direction::Left));
    assert_eq!(c.get_transition(), "Fall -> Walk");
    c.set_state(State::Crouch);
    assert_eq!(c.get_transition(), "Walk -> Crouch");
    c.set_state(State::Meteor);
    assert_eq!(c.get_transition(), "Crouch -> Meteor");
    c.set_state(State::Stand);
    assert_eq!(c.get_transition(), "Meteor -> Stand");
}

#[test]
fn load_hud_writes_lives_and_score() {
    let mut c = playing();
    c.load_hud();
    assert_eq!(
        c.active_map().map[0],
        [0, 5, 5, 0, 0, 0, 0, 0, 0, 0, 0, 0, 0, 0, 0, 8, 8, 8, 8, 0]
    );
}

#[test]
fn load_hud_clears_the_row_between_its_ends() {
    let rows = ["11111111111111111111", EMPTY, EMPTY, EMPTY, EMPTY, EMPTY, EMPTY, EMPTY, EMPTY, FLOOR];
    let mut c = fox_on(&rows);
    c.start();
    assert_eq!(c.active_map().map[0], [1u8; 20]);
    c.load_hud();
    assert_eq!(
        c.active_map().map[0],
        [1, 5, 5, 0, 0, 0, 0, 0, 0, 0, 0, 0, 0, 0, 0, 8, 8, 8, 8, 1]
    );
    assert_eq!(c.active_map().map[9], [2u8; 20]);
}

#[test]
fn no_floor_looks_at_the_cell_below() {
    let mut c = playing();
    assert!(!c.no_floor());
    let mut d = fox_on(&[EMPTY; 10]);
    d.start();
    assert!(d.no_floor());
    let rows = [EMPTY, EMPTY, EMPTY, EMPTY, EMPTY, EMPTY, EMPTY, EMPTY, EMPTY, "22222222202222222222"];
    let mut e = fox_on(&rows);
    e.start();
    assert!(e.no_floor());
    let rows = [EMPTY, EMPTY, EMPTY, EMPTY, EMPTY, EMPTY, EMPTY, EMPTY, EMPTY, "00000000020000000000"];
    let mut f = fox_on(&rows);
    f.start();
    assert!(!f.no_floor());
}
