use fox_arcade::gamemap::{GameMap, MapError};
use fox_arcade::sprite::{RecordError, Sprite};

fn sprite(n: u64) -> Sprite {
    Sprite::new(vec![String::from("red")], (0, 0, n))
}

fn sprite_lines(n: usize) -> String {
    let mut t = String::new();
    for k in 0..n {
        t.push_str(&format!("T{}:red:0-0-{}\n", k, k));
    }
    t
}

#[test]
fn new_map_is_empty() {
    let m = GameMap::new();
    assert_eq!(m.map, [[0u8; 20]; 10]);
    assert_eq!(m.sprites.len(), 0);
    assert_eq!(m.i, 0);
    assert_eq!(m.bg, "");
    assert_eq!(m.bg_temp, "");
    assert!(!m.bg_alter);
    assert!(m.is_well_formed());
}

#[test]
fn add_line_maps_digits_and_letters() {
    let mut m = GameMap::new();
    m.add_line("0123456789ABCDEFGHIJ");
    assert_eq!(m.map[0], [0, 1, 2, 3, 4, 5, 6, 7, 8, 9, 10, 11, 12, 13, 14, 15, 16, 17, 18, 19]);
    assert_eq!(m.i, 1);
    m.add_line("Z9");
    assert_eq!(m.map[1][0], 35);
    assert_eq!(m.map[1][1], 9);
    assert_eq!(m.map[1][2], 0);
    assert_eq!(m.i, 2);
}

#[test]
fn add_line_leaves_cells_of_other_characters() {
    let mut m = GameMap::new();
    m.map[0][1] = 7;
    m.map[0][2] = 7;
    m.add_line("1 z4");
    assert_eq!(m.map[0][0], 1);
    assert_eq!(m.map[0][1], 7);
    assert_eq!(m.map[0][2], 7);
    assert_eq!(m.map[0][3], 4);
}

#[test]
fn add_line_skips_what_lies_beyond_the_last_column() {
    let mut m = GameMap::new();
    m.add_line("11111111111111111111   ");
    assert_eq!(m.map[0], [1u8; 20]);
    assert_eq!(m.i, 1);
}

#[test]
fn add_sprite_appends() {
    let mut m = GameMap::new();
    m.add_sprite(sprite(1));
    m.add_sprite(sprite(2));
    assert_eq!(m.sprites.len(), 2);
    assert_eq!(m.sprites[0].map.0[0][0], 1);
    assert_eq!(m.sprites[1].map.0[0][1], 1);
}

#[test]
fn set_cell_and_cell_agree() {
    let mut m = GameMap::new();
    m.set_cell(9, 19, 3);
    assert_eq!(m.cell(9, 19), 3);
    assert_eq!(m.map[9][19], 3);
    assert_eq!(m.cell(0, 0), 0);
}

#[test]
fn flip_sprite_mirrors_one_sprite() {
    let mut m = GameMap::new();
    m.add_sprite(sprite(1));
    m.add_sprite(sprite(1));
    m.flip_sprite(1);
    assert_eq!(m.sprites[0].map.0[0][0], 1);
    assert_eq!(m.sprites[1].map.0[0][0], 0);
    assert_eq!(m.sprites[1].map.0[0][7], 1);
}

#[test]
fn well_formed_means_cells_refer_to_sprites() {
    let mut m = GameMap::new();
    m.add_sprite(sprite(1));
    m.set_cell(3, 4, 1);
    assert!(m.is_well_formed());
    m.set_cell(9, 19, 2);
    assert!(!m.is_well_formed());
    m.add_sprite(sprite(2));
    assert!(m.is_well_formed());
}

#[test]
fn from_text_reads_all_sections() {
    let text = "BackgroundStart\nskyblue\nBackgroundEnd\nBackTempStart\nnavy\nBackTempEnd\n\
MapStart\n00100\n2A\nMapEnd\nSpriteStart\nA:red:0-0-1\nB:blue-white:0-1-0\nSpriteEnd\n";
    let mut text = String::from(text);
    text.push_str("SpriteStart\n");
    text.push_str(&sprite_lines(8));
    text.push_str("SpriteEnd\n");
    let m = GameMap::from_text(text).unwrap();
    assert_eq!(m.bg, "skyblue");
    assert_eq!(m.bg_temp, "navy");
    assert!(!m.bg_alter);
    assert_eq!(m.i, 2);
    assert_eq!(m.map[0][2], 1);
    assert_eq!(m.map[1][0], 2);
    assert_eq!(m.map[1][1], 10);
    assert_eq!(m.map[2], [0u8; 20]);
    assert_eq!(m.sprites.len(), 10);
    assert_eq!(m.sprites[0].colorset[0], "red");
    assert_eq!(m.sprites[1].colorset[1], "white");
    assert_eq!(m.sprites[1].map.0[0][0], 2);
}

#[test]
fn from_text_of_nothing_is_the_empty_map() {
    let m = GameMap::from_text(String::new()).unwrap();
    assert_eq!(m.map, [[0u8; 20]; 10]);
    assert_eq!(m.sprites.len(), 0);
    assert_eq!(m.bg, "");
}

#[test]
fn from_text_skips_lines_outside_sections() {
    let m = GameMap::from_text(String::from("hello\n123\nMapStart\n\n111\nMapEnd\nA:b:c")).unwrap();
    assert_eq!(m.map, [[0u8; 20]; 10]);
    assert_eq!(m.i, 0);
    assert_eq!(m.sprites.len(), 0);
}

#[test]
fn an_empty_line_closes_a_section() {
    let m = GameMap::from_text(String::from("BackgroundStart\nsky\n\nblue\n")).unwrap();
    assert_eq!(m.bg, "sky");
}

#[test]
fn background_lines_are_joined() {
    let m = GameMap::from_text(String::from("BackgroundStart\nsky\nblue\nBackgroundEnd")).unwrap();
    assert_eq!(m.bg, "skyblue");
}

#[test]
fn a_start_marker_switches_sections_without_an_end() {
    let m = GameMap::from_text(String::from(
        "MapStart\n1\nSpriteStart\nA:red:0-0-1\nBackTempStart\nnavy",
    ))
    .unwrap();
    assert_eq!(m.map[0][0], 1);
    assert_eq!(m.sprites.len(), 1);
    assert_eq!(m.bg_temp, "navy");
}

#[test]
fn from_text_takes_carriage_returns() {
    let m = GameMap::from_text(String::from("MapStart\r\n01\r\nMapEnd\r\nSpriteStart\r\nA:red:0-0-1\r\n"))
        .unwrap();
    assert_eq!(m.map[0][1], 1);
    assert_eq!(m.sprites.len(), 1);
}

#[test]
fn from_text_rejects_an_eleventh_row() {
    let mut text = String::from("MapStart\n");
    for _ in 0..10 {
        text.push_str("0\n");
    }
    assert!(GameMap::from_text(text.clone()).is_ok());
    text.push_str("0\n");
    assert_eq!(GameMap::from_text(text).unwrap_err(), MapError::TooManyRows);
}

#[test]
fn from_text_rejects_a_row_of_21_cells() {
    assert_eq!(
        GameMap::from_text(String::from("MapStart\n000000000000000000000\n")).unwrap_err(),
        MapError::RowTooWide
    );
    assert!(GameMap::from_text(String::from("MapStart\n00000000000000000000 \n")).is_ok());
}

#[test]
fn from_text_rejects_a_bad_sprite_record() {
    assert_eq!(
        GameMap::from_text(String::from("SpriteStart\nA:red:1-2\n")).unwrap_err(),
        MapError::Sprite(RecordError::PackCount)
    );
    assert_eq!(
        GameMap::from_text(String::from("SpriteStart\nA:red:0-0-1\nnonsense\n")).unwrap_err(),
        MapError::Sprite(RecordError::Fields)
    );
}

#[test]
fn from_text_rejects_a_cell_without_sprite() {
    assert_eq!(
        GameMap::from_text(String::from("MapStart\n2\nMapEnd\nSpriteStart\nA:red:0-0-1\n")).unwrap_err(),
        MapError::TileOutOfRange
    );
    assert!(GameMap::from_text(String::from("MapStart\n1\nMapEnd\nSpriteStart\nA:red:0-0-1\n")).is_ok());
}

#[test]
fn sprites_may_come_before_the_grid() {
    let mut text = String::from("SpriteStart\n");
    text.push_str(&sprite_lines(12));
    text.push_str("SpriteEnd\nMapStart\nC\nMapEnd\n");
    let m = GameMap::from_text(text).unwrap();
    assert_eq!(m.map[0][0], 12);
}
