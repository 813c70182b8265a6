//! A sprite: a bitmap of colour codes together with the seven colours that
//! the codes 1 to 7 stand for.

use crate::bitmap::{
    codes_in_range, lemma_unpack_pack_low, low_codes, rows_text, unpacked, BitMap, Grid,
};
use crate::text::{
    chars_of, fields_of, line_ranges, lines_of, parse_u64, parsed_u64, ranges_within, split,
    split_ranges,
};
use vstd::hash_map::StringHashMap;
use vstd::prelude::*;
use vstd::string::{StrSliceExecFns, StringExecFns};

verus! {

/// The mathematical model of a sprite.
pub struct SpriteView {
    /// The 8x8 grid of colour codes.
    pub grid: Grid,
    /// The seven colour descriptors; entry `k` is the colour of code `k + 1`.
    pub colors: Seq<Seq<char>>,
}

/// A bitmap and its palette. Colour code `k` (1 to 7) is drawn with
/// `colorset[k - 1]`; code 0 is not drawn.
#[derive(Debug)]
pub struct Sprite {
    pub map: BitMap,
    pub colorset: [String; 7],
}

impl View for Sprite {
    type V = SpriteView;

    open spec fn view(&self) -> SpriteView {
        SpriteView { grid: self.map@, colors: Seq::new(7, |k: int| self.colorset[k]@) }
    }
}

/// The palette that a list of colours fills: the colours in order, then
/// empty descriptors up to seven entries.
pub open spec fn palette_of(colors: Seq<Seq<char>>) -> Seq<Seq<char>> {
    Seq::new(7, |k: int| if k < colors.len() { colors[k] } else { Seq::<char>::empty() })
}

/// The views of a list of strings.
pub open spec fn texts(v: Seq<String>) -> Seq<Seq<char>> {
    Seq::new(v.len(), |k: int| v[k]@)
}

/// Why a line is no sprite record.
#[derive(Debug, PartialEq, Eq, Copy, Clone, Structural)]
pub enum RecordError {
    /// The line does not have three fields parted by colons.
    Fields,
    /// There are more than seven colours.
    Colors,
    /// There are not three bit-planes.
    PackCount,
    /// A bit-plane is no unsigned decimal number of 64 bits.
    PackValue,
}

/// The sprite that a record describes. A record has three fields parted by
/// colons: a name, up to seven colours parted by hyphens, and the three
/// bit-planes of the bitmap, in decimal, parted by hyphens.
pub open spec fn record_of(line: Seq<char>) -> Result<SpriteView, RecordError> {
    let fields = split(line, ':');
    if fields.len() != 3 {
        Err(RecordError::Fields)
    } else {
        let colors = split(fields[1], '-');
        let packs = split(fields[2], '-');
        if colors.len() > 7 {
            Err(RecordError::Colors)
        } else if packs.len() != 3 {
            Err(RecordError::PackCount)
        } else {
            match (parsed_u64(packs[0]), parsed_u64(packs[1]), parsed_u64(packs[2])) {
                (Some(hi), Some(mid), Some(lo)) => Ok(
                    SpriteView { grid: unpacked(hi, mid, lo), colors: palette_of(colors) },
                ),
                _ => Err(RecordError::PackValue),
            }
        }
    }
}

/// The name that a record gives its sprite: its first field.
pub open spec fn record_key(line: Seq<char>) -> Seq<char> {
    split(line, ':')[0]
}

/// The table that a list of records describes: each sprite under its name,
/// a later record replacing an earlier one of the same name. The first
/// line that is no record makes the whole list fail.
pub open spec fn table_of(lines: Seq<Seq<char>>) -> Result<Map<Seq<char>, SpriteView>, RecordError>
    decreases lines.len(),
{
    if lines.len() == 0 {
        Ok(Map::empty())
    } else {
        match table_of(lines.drop_last()) {
            Err(e) => Err(e),
            Ok(m) => match record_of(lines.last()) {
                Err(e) => Err(e),
                Ok(s) => Ok(m.insert(record_key(lines.last()), s)),
            },
        }
    }
}

/// The views of the sprites of a table.
pub open spec fn table_views(m: Map<Seq<char>, Sprite>) -> Map<Seq<char>, SpriteView> {
    m.map_values(|s: Sprite| s@)
}

impl Sprite {
    /// Builds a sprite from at most seven colours and the three bit-planes
    /// of its bitmap. Palette entries beyond the given colours stay empty.
    pub fn new(colors: Vec<String>, compressed_map: (u64, u64, u64)) -> (s: Sprite)
        requires
            colors@.len() <= 7,
        ensures
            s@.grid == unpacked(compressed_map.0, compressed_map.1, compressed_map.2),
            s@.colors == palette_of(texts(colors@)),
            codes_in_range(s@.grid),
    {
        let mut colorset = [
            String::new(),
            String::new(),
            String::new(),
            String::new(),
            String::new(),
            String::new(),
            String::new(),
        ];
        let n = colors.len();
        let mut i: usize = 0;
        while i < n
            invariant
                i <= n,
                n == colors@.len(),
                n <= 7,
                forall|k: int| 0 <= k < i ==> #[trigger] colorset[k]@ == colors@[k]@,
                forall|k: int| i <= k < 7 ==> #[trigger] colorset[k]@ == Seq::<char>::empty(),
            decreases n - i,
        {
            colorset[i] = colors[i].clone();
            i += 1;
        }
        let s = Sprite { map: BitMap::from_compress(compressed_map), colorset };
        s
    }

    /// An independent copy: the same colour codes (each reduced to its
    /// three low bits) and the same colours.
    pub fn deref(&self) -> (s: Sprite)
        ensures
            s@.grid == low_codes(self@.grid),
            s@.colors == self@.colors,
            codes_in_range(s@.grid),
            codes_in_range(self@.grid) ==> s@ == self@,
    {
        let mut colors: Vec<String> = Vec::new();
        let compressed_map = self.map.compress_map();
        let mut i: usize = 0;
        while i < 7
            invariant
                i <= 7,
                colors@.len() == i,
                forall|k: int| 0 <= k < i ==> #[trigger] colors@[k]@ == self.colorset[k]@,
            decreases 7 - i,
        {
            colors.push(self.colorset[i].clone());
            i += 1;
        }
        let s = Sprite::new(colors, compressed_map);
        proof {
            lemma_unpack_pack_low(self@.grid, compressed_map.0, compressed_map.1, compressed_map.2);
            if codes_in_range(self@.grid) {
                assert(low_codes(self@.grid) =~~= self@.grid);
            }
        }
        s
    }

    /// Reads a sprite from a record.
    pub fn from_line(line: String) -> (r: Result<Sprite, RecordError>)
        ensures
            match r {
                Ok(s) => record_of(line@) == Ok::<SpriteView, RecordError>(s@),
                Err(e) => record_of(line@) == Err::<SpriteView, RecordError>(e),
            },
    {
        let chars = chars_of(line.as_str());
        assert(chars@.subrange(0, chars@.len() as int) =~= chars@);
        let fields = split_ranges(&chars, 0, chars.len(), ':');
        if fields.len() != 3 {
            return Err(RecordError::Fields);
        }
        let (color_from, color_to) = fields[1];
        let (pack_from, pack_to) = fields[2];
        let color_ranges = split_ranges(&chars, color_from, color_to, '-');
        let pack_ranges = split_ranges(&chars, pack_from, pack_to, '-');
        if color_ranges.len() > 7 {
            return Err(RecordError::Colors);
        }
        if pack_ranges.len() != 3 {
            return Err(RecordError::PackCount);
        }
        let hi = parse_u64(&chars, pack_ranges[0].0, pack_ranges[0].1);
        let mid = parse_u64(&chars, pack_ranges[1].0, pack_ranges[1].1);
        let lo = parse_u64(&chars, pack_ranges[2].0, pack_ranges[2].1);
        match (hi, mid, lo) {
            (Some(hi), Some(mid), Some(lo)) => {
                let mut colors: Vec<String> = Vec::new();
                let n = color_ranges.len();
                let mut k: usize = 0;
                while k < n
                    invariant
                        k <= n,
                        n == color_ranges@.len(),
                        chars@ == line@,
                        ranges_within(color_ranges@, color_from as int, color_to as int),
                        color_to <= chars@.len(),
                        colors@.len() == k,
                        forall|j: int|
                            0 <= j < k ==> (#[trigger] colors@[j])@ == fields_of(
                                chars@,
                                color_ranges@,
                            )[j],
                    decreases n - k,
                {
                    let (a, b) = color_ranges[k];
                    let color = String::from_str(line.as_str().substring_char(a, b));
                    colors.push(color);
                    k += 1;
                }
                assert(texts(colors@) =~= fields_of(chars@, color_ranges@));
                Ok(Sprite::new(colors, (hi, mid, lo)))
            },
            _ => Err(RecordError::PackValue),
        }
    }

    /// Reads a table of sprites from a text with one record per line. Each
    /// sprite stands under the name that is the first field of its record.
    pub fn hash_from_text(text: String) -> (r: Result<StringHashMap<Sprite>, RecordError>)
        ensures
            match r {
                Ok(t) => table_of(lines_of(text@)) == Ok::<Map<Seq<char>, SpriteView>, RecordError>(
                    table_views(t@),
                ),
                Err(e) => table_of(lines_of(text@)) == Err::<Map<Seq<char>, SpriteView>, RecordError>(
                    e,
                ),
            },
    {
        let chars = chars_of(text.as_str());
        let lines = line_ranges(&chars);
        let ghost all = lines_of(text@);
        let mut hash: StringHashMap<Sprite> = StringHashMap::new();
        let n = lines.len();
        let mut k: usize = 0;
        assert(table_views(hash@) =~= Map::empty());
        while k < n
            invariant
                k <= n,
                n == lines@.len(),
                chars@ == text@,
                all == lines_of(text@),
                all == fields_of(chars@, lines@),
                ranges_within(lines@, 0, chars@.len() as int),
                table_of(all.take(k as int)) == Ok::<Map<Seq<char>, SpriteView>, RecordError>(
                    table_views(hash@),
                ),
            decreases n - k,
        {
            let (a, b) = lines[k];
            let line = text.as_str().substring_char(a, b);
            let line_chars = chars_of(line);
            assert(line_chars@.subrange(0, line_chars@.len() as int) =~= line_chars@);
            let fields = split_ranges(&line_chars, 0, line_chars.len(), ':');
            let (key_from, key_to) = fields[0];
            let key = String::from_str(line.substring_char(key_from, key_to));
            let ghost head = all.take(k + 1);
            proof {
                assert(head.drop_last() =~= all.take(k as int));
            }
            match Sprite::from_line(String::from_str(line)) {
                Ok(spte) => {
                    let ghost before = hash@;
                    hash.insert(key, spte);
                    assert(table_views(hash@) =~= table_views(before).insert(key@, spte@));
                },
                Err(e) => {
                    proof {
                        lemma_table_fails(all, k as int + 1, e);
                    }
                    return Err(e);
                },
            }
            k += 1;
        }
        assert(all.take(n as int) =~= all);
        Ok(hash)
    }

    /// The sprite as text: the rows of its bitmap, each on a line of its
    /// own, and an empty line after them.
    pub fn to_text(&self) -> (t: String)
        ensures
            t@ == rows_text(self@.grid, 8) + "\n"@,
    {
        let mut t = String::new();
        self.map.append_rows(&mut t);
        t.append("\n");
        t
    }
}

/// Where the first `k` lines fail, the whole list fails in the same way.
pub proof fn lemma_table_fails(lines: Seq<Seq<char>>, k: int, e: RecordError)
    requires
        0 <= k <= lines.len(),
        table_of(lines.take(k)) == Err::<Map<Seq<char>, SpriteView>, RecordError>(e),
    ensures
        table_of(lines) == Err::<Map<Seq<char>, SpriteView>, RecordError>(e),
    decreases lines.len() - k,
{
    if k == lines.len() {
        assert(lines.take(k) =~= lines);
    } else {
        assert(lines.take(k + 1).drop_last() =~= lines.take(k));
        lemma_table_fails(lines, k + 1, e);
    }
}

} // verus!
