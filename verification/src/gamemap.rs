//! A game map: a grid of 10 rows by 20 columns of sprite references, the
//! sprites they refer to, and two background colours.

use crate::bitmap::mirrored;
use crate::sprite::{record_of, RecordError, Sprite, SpriteView};
use crate::text::{chars_of, fields_of, line_ranges, lines_of, ranges_within};
use vstd::prelude::*;
use vstd::string::{StrSliceExecFns, StringExecFns};

verus! {

/// The number of rows of a map.
pub const MAP_ROWS: usize = 10;

/// The number of columns of a map.
pub const MAP_COLS: usize = 20;

/// The mathematical model of a map.
pub struct GameMapView {
    /// The cells, 10 rows of 20: 0 for an empty cell, else the 1-based
    /// index of a sprite.
    pub cells: Seq<Seq<u8>>,
    /// The sprites, in the order in which they were added.
    pub sprites: Seq<SpriteView>,
    /// The number of rows filled so far.
    pub rows: int,
    /// The background colour.
    pub bg: Seq<char>,
    /// The alternative background colour.
    pub bg_temp: Seq<char>,
    /// Whether the alternative background is shown.
    pub bg_alter: bool,
}

/// A map of the game.
#[derive(Debug)]
pub struct GameMap {
    pub map: [[u8; 20]; 10],
    pub sprites: Vec<Sprite>,
    /// The number of rows that `add_line` has filled so far.
    pub i: u8,
    pub bg: String,
    pub bg_temp: String,
    pub bg_alter: bool,
}

/// The views of a list of sprites.
pub open spec fn sprite_views(v: Seq<Sprite>) -> Seq<SpriteView> {
    Seq::new(v.len(), |k: int| v[k]@)
}

impl View for GameMap {
    type V = GameMapView;

    open spec fn view(&self) -> GameMapView {
        GameMapView {
            cells: Seq::new(10, |r: int| self.map[r]@),
            sprites: sprite_views(self.sprites@),
            rows: self.i as int,
            bg: self.bg@,
            bg_temp: self.bg_temp@,
            bg_alter: self.bg_alter,
        }
    }
}

/// Every cell is empty or refers to one of the first `n` sprites.
pub open spec fn cells_refer_within(cells: Seq<Seq<u8>>, n: int) -> bool {
    forall|r: int, c: int| 0 <= r < 10 && 0 <= c < 20 ==> #[trigger] cells[r][c] <= n
}

/// The cells have the shape of a map: 10 rows of 20 cells.
pub open spec fn is_map_grid(cells: Seq<Seq<u8>>) -> bool {
    &&& cells.len() == 10
    &&& forall|r: int| 0 <= r < 10 ==> (#[trigger] cells[r]).len() == 20
}

impl GameMapView {
    /// The grid has 10 rows of 20 cells, and every cell is empty or refers
    /// to a sprite of the map.
    pub open spec fn well_formed(self) -> bool {
        &&& is_map_grid(self.cells)
        &&& cells_refer_within(self.cells, self.sprites.len() as int)
    }

    /// The map with cell `(r, c)` set to `v`.
    pub open spec fn with_cell(self, r: int, c: int, v: u8) -> GameMapView {
        GameMapView { cells: self.cells.update(r, self.cells[r].update(c, v)), ..self }
    }

    /// The map with row `r` replaced.
    pub open spec fn with_row(self, r: int, row: Seq<u8>) -> GameMapView {
        GameMapView { cells: self.cells.update(r, row), ..self }
    }

    /// The map with sprite `k` mirrored left to right.
    pub open spec fn with_sprite_flipped(self, k: int) -> GameMapView {
        GameMapView {
            sprites: self.sprites.update(
                k,
                SpriteView { grid: mirrored(self.sprites[k].grid), ..self.sprites[k] },
            ),
            ..self
        }
    }
}

/// The empty map: all cells 0, no sprites, empty backgrounds.
pub open spec fn empty_map() -> GameMapView {
    GameMapView {
        cells: Seq::new(10, |r: int| Seq::new(20, |c: int| 0u8)),
        sprites: Seq::empty(),
        rows: 0,
        bg: Seq::empty(),
        bg_temp: Seq::empty(),
        bg_alter: false,
    }
}

/// The character stands for a cell value in a row of a map text.
pub open spec fn is_tile_char(c: char) -> bool {
    ('0' <= c <= '9') || ('A' <= c <= 'Z')
}

/// The cell value that a character stands for: a digit for its value, a
/// capital letter for 10 and up.
pub open spec fn tile_of(c: char) -> u8 {
    if '0' <= c <= '9' {
        (c as int - '0' as int) as u8
    } else {
        (c as int - 'A' as int + 10) as u8
    }
}

/// The row after a line of a map text was written into it: every
/// character that stands for a cell value sets the cell of its column.
pub open spec fn row_written(row: Seq<u8>, line: Seq<char>) -> Seq<u8> {
    Seq::new(
        20,
        |c: int|
            if c < line.len() && is_tile_char(line[c]) {
                tile_of(line[c])
            } else {
                row[c]
            },
    )
}

/// No character beyond column 19 stands for a cell value.
pub open spec fn fits_row(line: Seq<char>) -> bool {
    forall|i: int| 20 <= i < line.len() ==> !is_tile_char(#[trigger] line[i])
}

/// The part of a map text that a line belongs to.
#[derive(Debug, PartialEq, Eq, Copy, Clone, Structural)]
pub enum Section {
    Outside,
    Grid,
    Sprites,
    Background,
    BackTemp,
}

/// Why a text is no map.
#[derive(Debug, PartialEq, Eq, Copy, Clone, Structural)]
pub enum MapError {
    /// The grid has more than 10 rows.
    TooManyRows,
    /// A row of the grid sets a cell beyond column 19.
    RowTooWide,
    /// A line of the sprite section is no sprite record.
    Sprite(RecordError),
    /// A cell refers to a sprite that the map does not have.
    TileOutOfRange,
}

/// The section that a marker line opens, if the line is a marker. An end
/// marker and an empty line lead outside every section.
pub open spec fn marker_of(line: Seq<char>) -> Option<Section> {
    if line == "BackgroundStart"@ {
        Some(Section::Background)
    } else if line == "BackTempStart"@ {
        Some(Section::BackTemp)
    } else if line == "MapStart"@ {
        Some(Section::Grid)
    } else if line == "SpriteStart"@ {
        Some(Section::Sprites)
    } else if line.len() == 0 || line == "MapEnd"@ || line == "SpriteEnd"@ || line
        == "BackgroundEnd"@ || line == "BackTempEnd"@ {
        Some(Section::Outside)
    } else {
        None
    }
}

impl GameMapView {
    /// The map with a line of the map text written into its next row.
    pub open spec fn with_line(self, line: Seq<char>) -> GameMapView {
        GameMapView {
            rows: self.rows + 1,
            ..self.with_row(self.rows, row_written(self.cells[self.rows], line))
        }
    }

    /// The map after a line of the map text that is no marker, read in
    /// section `section`.
    pub open spec fn with_content(self, section: Section, line: Seq<char>) -> Result<
        GameMapView,
        MapError,
    > {
        match section {
            Section::Grid => if self.rows >= 10 {
                Err(MapError::TooManyRows)
            } else if !fits_row(line) {
                Err(MapError::RowTooWide)
            } else {
                Ok(self.with_line(line))
            },
            Section::Sprites => match record_of(line) {
                Ok(s) => Ok(GameMapView { sprites: self.sprites.push(s), ..self }),
                Err(e) => Err(MapError::Sprite(e)),
            },
            Section::Background => Ok(GameMapView { bg: self.bg + line, ..self }),
            Section::BackTemp => Ok(GameMapView { bg_temp: self.bg_temp + line, ..self }),
            Section::Outside => Ok(self),
        }
    }
}

/// The map and the section after a list of lines was read, starting with
/// the empty map outside every section.
pub open spec fn read_lines(lines: Seq<Seq<char>>) -> Result<(GameMapView, Section), MapError>
    decreases lines.len(),
{
    if lines.len() == 0 {
        Ok((empty_map(), Section::Outside))
    } else {
        match read_lines(lines.drop_last()) {
            Err(e) => Err(e),
            Ok((m, section)) => match marker_of(lines.last()) {
                Some(next) => Ok((m, next)),
                None => match m.with_content(section, lines.last()) {
                    Ok(m2) => Ok((m2, section)),
                    Err(e) => Err(e),
                },
            },
        }
    }
}

/// The map that a map text describes.
pub open spec fn map_of(text: Seq<char>) -> Result<GameMapView, MapError> {
    match read_lines(lines_of(text)) {
        Err(e) => Err(e),
        Ok((m, _)) => if m.well_formed() {
            Ok(m)
        } else {
            Err(MapError::TileOutOfRange)
        },
    }
}

/// Where the first `k` lines fail, the whole list fails in the same way.
pub proof fn lemma_read_fails(lines: Seq<Seq<char>>, k: int, e: MapError)
    requires
        0 <= k <= lines.len(),
        read_lines(lines.take(k)) == Err::<(GameMapView, Section), MapError>(e),
    ensures
        read_lines(lines) == Err::<(GameMapView, Section), MapError>(e),
    decreases lines.len() - k,
{
    if k == lines.len() {
        assert(lines.take(k) =~= lines);
    } else {
        assert(lines.take(k + 1).drop_last() =~= lines.take(k));
        lemma_read_fails(lines, k + 1, e);
    }
}

/// Whether the characters between `from` and `to` are the given text.
fn same_text(chars: &Vec<char>, from: usize, to: usize, text: &str) -> (same: bool)
    requires
        from <= to <= chars@.len(),
    ensures
        same == (chars@.subrange(from as int, to as int) == text@),
{
    let want = chars_of(text);
    if want.len() != to - from {
        return false;
    }
    let n = want.len();
    let mut k: usize = 0;
    while k < n
        invariant
            k <= n,
            n == want@.len(),
            n == to - from,
            from <= to <= chars@.len(),
            want@ == text@,
            forall|j: int| 0 <= j < k ==> chars@[from + j] == #[trigger] want@[j],
        decreases n - k,
    {
        if chars[from + k] != want[k] {
            return false;
        }
        k += 1;
    }
    assert(chars@.subrange(from as int, to as int) =~= text@);
    true
}

/// The section that the line between `from` and `to` opens, if it is a
/// marker.
fn read_marker(chars: &Vec<char>, from: usize, to: usize) -> (m: Option<Section>)
    requires
        from <= to <= chars@.len(),
    ensures
        m == marker_of(chars@.subrange(from as int, to as int)),
{
    if same_text(chars, from, to, "BackgroundStart") {
        Some(Section::Background)
    } else if same_text(chars, from, to, "BackTempStart") {
        Some(Section::BackTemp)
    } else if same_text(chars, from, to, "MapStart") {
        Some(Section::Grid)
    } else if same_text(chars, from, to, "SpriteStart") {
        Some(Section::Sprites)
    } else if from == to || same_text(chars, from, to, "MapEnd") || same_text(
        chars,
        from,
        to,
        "SpriteEnd",
    ) || same_text(chars, from, to, "BackgroundEnd") || same_text(chars, from, to, "BackTempEnd") {
        Some(Section::Outside)
    } else {
        None
    }
}

/// Whether no character of the line beyond column 19 stands for a cell
/// value.
fn row_fits(chars: &Vec<char>) -> (ok: bool)
    ensures
        ok == fits_row(chars@),
{
    let n = chars.len();
    let mut k: usize = 20;
    while k < n
        invariant
            20 <= k,
            n == chars@.len(),
            forall|i: int| 20 <= i < k && i < n ==> !is_tile_char(#[trigger] chars@[i]),
        decreases n - k,
    {
        let c = chars[k];
        if (c >= '0' && c <= '9') || (c >= 'A' && c <= 'Z') {
            return false;
        }
        k += 1;
    }
    true
}

impl GameMap {
    /// An empty map: all cells 0, no sprites, empty backgrounds.
    pub fn new() -> (m: GameMap)
        ensures
            m@ == empty_map(),
    {
        let m = GameMap {
            map: [[0u8; 20]; 10],
            sprites: Vec::new(),
            i: 0,
            bg: String::new(),
            bg_temp: String::new(),
            bg_alter: false,
        };
        assert(m@.cells =~~= empty_map().cells);
        assert(m@.sprites =~= empty_map().sprites);
        m
    }

    /// Writes a line of a map text into the next row of the grid. A digit
    /// sets the cell of its column to its value, a capital letter to 10 and
    /// up; any other character leaves its cell as it is.
    pub fn add_line(&mut self, line: &str)
        requires
            old(self)@.rows < 10,
            fits_row(line@),
        ensures
            final(self)@ == old(self)@.with_line(line@),
    {
        let chars = chars_of(line);
        let n = chars.len();
        let row = self.i as usize;
        let mut i: usize = 0;
        assert(self@.cells =~= old(self)@.with_row(row as int, self@.cells[row as int]).cells);
        while i < n
            invariant
                i <= n,
                n == chars@.len(),
                chars@ == line@,
                fits_row(line@),
                row < 10,
                row == old(self)@.rows,
                self@ == old(self)@.with_row(row as int, self@.cells[row as int]),
                self@.cells[row as int].len() == 20,
                forall|c: int|
                    0 <= c < 20 ==> #[trigger] self@.cells[row as int][c] == (if c < i
                        && is_tile_char(line@[c]) {
                        tile_of(line@[c])
                    } else {
                        old(self)@.cells[row as int][c]
                    }),
            decreases n - i,
        {
            let c = chars[i];
            if c >= '0' && c <= '9' {
                self.set_cell(row, i, (c as u32 - '0' as u32) as u8);
                assert(self@.cells =~= old(self)@.with_row(row as int, self@.cells[row as int]).cells);
            } else if c >= 'A' && c <= 'Z' {
                self.set_cell(row, i, (c as u32 - 'A' as u32 + 10) as u8);
                assert(self@.cells =~= old(self)@.with_row(row as int, self@.cells[row as int]).cells);
            }
            i += 1;
        }
        self.i += 1;
        assert(self@.cells[row as int] =~= row_written(old(self)@.cells[row as int], line@));
    }

    /// Appends a sprite; it gets the next reference index.
    pub fn add_sprite(&mut self, spte: Sprite)
        ensures
            final(self)@ == (GameMapView { sprites: old(self)@.sprites.push(spte@), ..old(self)@ }),
    {
        self.sprites.push(spte);
        assert(self@.sprites =~= old(self)@.sprites.push(spte@));
    }

    /// Sets one cell of the grid.
    pub fn set_cell(&mut self, r: usize, c: usize, v: u8)
        requires
            r < 10,
            c < 20,
        ensures
            final(self)@ == old(self)@.with_cell(r as int, c as int, v),
    {
        let ghost before = *self;
        self.map[r][c] = v;
        assert(self@.cells =~~= before@.cells.update(r as int, before@.cells[r as int].update(c as int, v)));
    }

    /// Mirrors sprite `k` of the map in place.
    pub fn flip_sprite(&mut self, k: usize)
        requires
            k < old(self)@.sprites.len(),
        ensures
            final(self)@ == old(self)@.with_sprite_flipped(k as int),
    {
        self.sprites[k].map.invert_side();
        assert(self@.sprites =~= old(self)@.with_sprite_flipped(k as int).sprites);
    }

    /// The value of one cell of the grid.
    pub fn cell(&self, r: usize, c: usize) -> (v: u8)
        requires
            r < 10,
            c < 20,
        ensures
            v == self@.cells[r as int][c as int],
    {
        self.map[r][c]
    }

    /// Whether every cell is empty or refers to a sprite of the map.
    pub fn is_well_formed(&self) -> (ok: bool)
        ensures
            ok == self@.well_formed(),
    {
        let n = self.sprites.len();
        let mut r: usize = 0;
        while r < 10
            invariant
                r <= 10,
                n == self.sprites@.len(),
                forall|p: int, q: int| 0 <= p < r && 0 <= q < 20 ==> #[trigger] self@.cells[p][q] <= n,
            decreases 10 - r,
        {
            let mut c: usize = 0;
            while c < 20
                invariant
                    r < 10,
                    c <= 20,
                    n == self.sprites@.len(),
                    forall|p: int, q: int|
                        0 <= p < r && 0 <= q < 20 ==> #[trigger] self@.cells[p][q] <= n,
                    forall|q: int| 0 <= q < c ==> #[trigger] self@.cells[r as int][q] <= n,
                decreases 20 - c,
            {
                if self.map[r][c] as usize > n {
                    assert(self@.cells[r as int][c as int] > n);
                    return false;
                }
                c += 1;
            }
            r += 1;
        }
        true
    }

    /// Reads a map from a map text. Marker lines open and close its
    /// sections: between `MapStart` and `MapEnd` stand the rows of the grid,
    /// between `SpriteStart` and `SpriteEnd` one sprite record per line,
    /// between `BackgroundStart` and `BackgroundEnd` the background colour,
    /// between `BackTempStart` and `BackTempEnd` the alternative one. Lines
    /// outside every section are skipped.
    pub fn from_text(text: String) -> (r: Result<GameMap, MapError>)
        ensures
            match r {
                Ok(m) => map_of(text@) == Ok::<GameMapView, MapError>(m@),
                Err(e) => map_of(text@) == Err::<GameMapView, MapError>(e),
            },
    {
        let mut map = GameMap::new();
        let chars = chars_of(text.as_str());
        let lines = line_ranges(&chars);
        let ghost all = lines_of(text@);
        let mut section = Section::Outside;
        let n = lines.len();
        let mut k: usize = 0;
        while k < n
            invariant
                k <= n,
                n == lines@.len(),
                chars@ == text@,
                all == lines_of(text@),
                all == fields_of(chars@, lines@),
                ranges_within(lines@, 0, chars@.len() as int),
                read_lines(all.take(k as int)) == Ok::<(GameMapView, Section), MapError>(
                    (map@, section),
                ),
            decreases n - k,
        {
            let (a, b) = lines[k];
            let ghost head = all.take(k + 1);
            proof {
                assert(head.drop_last() =~= all.take(k as int));
            }
            match read_marker(&chars, a, b) {
                Some(next) => {
                    section = next;
                },
                None => {
                    let line = text.as_str().substring_char(a, b);
                    let res = map.read_content(section, line);
                    match res {
                        Ok(()) => {},
                        Err(e) => {
                            proof {
                                lemma_read_fails(all, k as int + 1, e);
                            }
                            return Err(e);
                        },
                    }
                },
            }
            k += 1;
        }
        assert(all.take(n as int) =~= all);
        if map.is_well_formed() {
            Ok(map)
        } else {
            Err(MapError::TileOutOfRange)
        }
    }

    /// Reads a line that is no marker, in section `section`.
    fn read_content(&mut self, section: Section, line: &str) -> (r: Result<(), MapError>)
        ensures
            match r {
                Ok(_) => old(self)@.with_content(section, line@) == Ok::<GameMapView, MapError>(
                    final(self)@,
                ),
                Err(e) => old(self)@.with_content(section, line@) == Err::<GameMapView, MapError>(e),
            },
    {
        match section {
            Section::Grid => {
                if self.i >= 10 {
                    return Err(MapError::TooManyRows);
                }
                let line_chars = chars_of(line);
                if !row_fits(&line_chars) {
                    return Err(MapError::RowTooWide);
                }
                self.add_line(line);
                Ok(())
            },
            Section::Sprites => {
                match Sprite::from_line(String::from_str(line)) {
                    Ok(spte) => {
                        self.add_sprite(spte);
                        Ok(())
                    },
                    Err(e) => Err(MapError::Sprite(e)),
                }
            },
            Section::Background => {
                self.bg.append(line);
                Ok(())
            },
            Section::BackTemp => {
                self.bg_temp.append(line);
                Ok(())
            },
            Section::Outside => Ok(()),
        }
    }
}

} // verus!
