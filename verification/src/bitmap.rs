//! An 8x8 grid of 3-bit colour codes, its packing into three 64-bit
//! bit-planes, and the two in-place transforms (mirror, quarter turn).

use vstd::prelude::*;
use vstd::string::StringExecFns;

verus! {

/// The mathematical model of a grid: eight rows of eight cells.
pub type Grid = Seq<Seq<u8>>;

/// An 8x8 matrix of colour codes. Code 0 is "no colour"; codes 1 to 7 pick a
/// palette entry.
#[derive(Debug, Copy, Clone)]
pub struct BitMap(pub [[u8; 8]; 8]);

impl View for BitMap {
    type V = Grid;

    open spec fn view(&self) -> Grid {
        Seq::new(8, |r: int| self.0[r]@)
    }
}

/// A grid has the shape of a bitmap: eight rows, each of eight cells.
pub open spec fn is_grid(g: Grid) -> bool {
    &&& g.len() == 8
    &&& forall|r: int| 0 <= r < 8 ==> (#[trigger] g[r]).len() == 8
}

/// The grid with the columns of every row in reverse order.
pub open spec fn mirrored(g: Grid) -> Grid {
    Seq::new(8, |r: int| Seq::new(8, |c: int| g[r][7 - c]))
}

/// The grid turned a quarter turn to the right.
pub open spec fn rotated(g: Grid) -> Grid {
    Seq::new(8, |r: int| Seq::new(8, |c: int| g[7 - c][r]))
}

/// The grid reflected through its centre (a half turn).
pub open spec fn reflected(g: Grid) -> Grid {
    Seq::new(8, |r: int| Seq::new(8, |c: int| g[7 - r][7 - c]))
}

/// Every cell holds a colour code of three bits.
pub open spec fn codes_in_range(g: Grid) -> bool {
    forall|r: int, c: int| 0 <= r < 8 && 0 <= c < 8 ==> #[trigger] g[r][c] <= 7
}

/// The grid with every cell reduced to its three low bits.
pub open spec fn low_codes(g: Grid) -> Grid {
    Seq::new(8, |r: int| Seq::new(8, |c: int| (g[r][c] % 8) as u8))
}

/// Bit `i` of a 64-bit word, bit 0 being the lowest.
pub open spec fn bit_of(w: u64, i: int) -> bool {
    (w >> (i as u64)) & 1 == 1
}

/// The cell with row-major index `i` (0 to 63).
pub open spec fn cell_at(g: Grid, i: int) -> u8 {
    g[i / 8][i % 8]
}

/// Bit `k` (0, 1 or 2) of a colour code.
pub open spec fn plane_bit(v: u8, k: int) -> bool {
    if k == 2 {
        v / 4 % 2 == 1
    } else if k == 1 {
        v / 2 % 2 == 1
    } else {
        v % 2 == 1
    }
}

/// Word `w` is bit-plane `k` of the grid: bit `i` of `w` is bit `k` of the
/// cell with row-major index `i`.
pub open spec fn is_plane(g: Grid, k: int, w: u64) -> bool {
    forall|i: int| 0 <= i < 64 ==> #[trigger] bit_of(w, i) == plane_bit(cell_at(g, i), k)
}

/// The three words are the bit-planes of the grid, from the high bit of the
/// colour codes to the low one.
pub open spec fn packs(g: Grid, hi: u64, mid: u64, lo: u64) -> bool {
    &&& is_plane(g, 2, hi)
    &&& is_plane(g, 1, mid)
    &&& is_plane(g, 0, lo)
}

/// Word `w` holds plane `k` of the first `n` cells and nothing above them.
spec fn plane_upto(g: Grid, k: int, w: u64, n: int) -> bool {
    &&& forall|i: int| 0 <= i < n ==> #[trigger] bit_of(w, i) == plane_bit(cell_at(g, i), k)
    &&& forall|i: int| n <= i < 64 ==> !#[trigger] bit_of(w, i)
}

/// The colour code that the three bit-planes hold for cell `i`.
pub open spec fn code_at(hi: u64, mid: u64, lo: u64, i: int) -> u8 {
    ((if bit_of(hi, i) { 4int } else { 0 }) + (if bit_of(mid, i) { 2int } else { 0 }) + (if bit_of(
        lo,
        i,
    ) { 1int } else { 0 })) as u8
}

/// The grid that the three bit-planes describe.
pub open spec fn unpacked(hi: u64, mid: u64, lo: u64) -> Grid {
    Seq::new(8, |r: int| Seq::new(8, |c: int| code_at(hi, mid, lo, 8 * r + c)))
}

/// The three bits of a colour code, by masks and shifts and by division.
proof fn lemma_code_planes(v: u8)
    by (bit_vector)
    ensures
        ((v as u64 & 4) >> 2) == (v / 4) % 2,
        ((v as u64 & 2) >> 1) == (v / 2) % 2,
        (v as u64 & 1) == v % 2,
{
}

/// Setting a clear bit `i` of a word to `x` leaves every other bit.
proof fn lemma_or_shifted(a: u64, x: u64, i: u64, k: u64)
    by (bit_vector)
    requires
        i < 64,
        k < 64,
        x <= 1,
        (a >> i) & 1 == 0,
    ensures
        ((a | (x << i)) >> k) & 1 == (if k == i { x } else { (a >> k) & 1 }),
{
}

/// A word that holds a plane of the first `n` cells holds it of the first
/// `n + 1` once bit `n` is set to the bit of cell `n`.
proof fn lemma_plane_step(g: Grid, k: int, w: u64, n: u64, x: u64)
    requires
        n < 64,
        plane_upto(g, k, w, n as int),
        x <= 1,
        (x == 1) == plane_bit(cell_at(g, n as int), k),
    ensures
        plane_upto(g, k, (w | (x << n)), n + 1),
{
    let w2 = w | (x << n);
    assert(!bit_of(w, n as int));
    lemma_low_bit(w, n);
    assert forall|i: int| 0 <= i < 64 implies #[trigger] bit_of(w2, i) == (if i == n {
        x == 1
    } else {
        bit_of(w, i)
    }) by {
        lemma_or_shifted(w, x, n, i as u64);
    }
}

/// The word 0 holds a plane of no cells.
proof fn lemma_plane_start(g: Grid, k: int)
    ensures
        plane_upto(g, k, 0, 0),
{
    assert forall|i: int| 0 <= i < 64 implies !#[trigger] bit_of(0u64, i) by {
        lemma_zero_has_no_bit(i as u64);
    }
}

/// No bit of the word 0 is set.
proof fn lemma_zero_has_no_bit(k: u64)
    by (bit_vector)
    requires
        k < 64,
    ensures
        (0u64 >> k) & 1 == 0,
{
}

/// Three bits joined by shifts are the number they write in binary.
proof fn lemma_join_planes(x: u64, y: u64, z: u64)
    by (bit_vector)
    requires
        x <= 1,
        y <= 1,
        z <= 1,
    ensures
        ((x << 2) | (y << 1) | z) == 4 * x + 2 * y + z,
{
}

/// A bit is 0 or 1.
proof fn lemma_low_bit(a: u64, i: u64)
    by (bit_vector)
    requires
        i < 64,
    ensures
        (a >> i) & 1 <= 1,
{
}

/// The text of a decimal digit.
pub open spec fn digit_text(d: int) -> Seq<char> {
    if d == 0 {
        "0"@
    } else if d == 1 {
        "1"@
    } else if d == 2 {
        "2"@
    } else if d == 3 {
        "3"@
    } else if d == 4 {
        "4"@
    } else if d == 5 {
        "5"@
    } else if d == 6 {
        "6"@
    } else if d == 7 {
        "7"@
    } else if d == 8 {
        "8"@
    } else {
        "9"@
    }
}

/// The decimal text of a cell value, without leading zeros.
pub open spec fn cell_text(v: u8) -> Seq<char> {
    if v >= 100 {
        digit_text(v as int / 100) + digit_text(v as int / 10 % 10) + digit_text(v as int % 10)
    } else if v >= 10 {
        digit_text(v as int / 10) + digit_text(v as int % 10)
    } else {
        digit_text(v as int)
    }
}

/// The text of the first `n` cells of a row: each value followed by a
/// comma and a blank.
pub open spec fn cells_text(row: Seq<u8>, n: nat) -> Seq<char>
    decreases n,
{
    if n == 0 {
        Seq::empty()
    } else {
        cells_text(row, (n - 1) as nat) + cell_text(row[n - 1]) + ", "@
    }
}

/// The text of the first `n` rows of a grid: each row on a line of its
/// own.
pub open spec fn rows_text(g: Grid, n: nat) -> Seq<char>
    decreases n,
{
    if n == 0 {
        Seq::empty()
    } else {
        rows_text(g, (n - 1) as nat) + cells_text(g[n - 1], 8) + "\n"@
    }
}

/// The text of a bitmap: its rows between a line of underscores and a
/// line of hyphens.
pub open spec fn bitmap_text(g: Grid) -> Seq<char> {
    "___\n"@ + rows_text(g, 8) + "---\n"@
}

/// The text of a decimal digit.
fn digit_str(d: u8) -> (t: &'static str)
    requires
        d <= 9,
    ensures
        t@ == digit_text(d as int),
{
    match d {
        0 => "0",
        1 => "1",
        2 => "2",
        3 => "3",
        4 => "4",
        5 => "5",
        6 => "6",
        7 => "7",
        8 => "8",
        _ => "9",
    }
}

/// Appends the decimal text of a cell value.
fn append_cell(t: &mut String, v: u8)
    ensures
        final(t)@ == old(t)@ + cell_text(v),
{
    if v >= 100 {
        t.append(digit_str(v / 100));
        t.append(digit_str(v / 10 % 10));
        t.append(digit_str(v % 10));
    } else if v >= 10 {
        t.append(digit_str(v / 10));
        t.append(digit_str(v % 10));
    } else {
        t.append(digit_str(v));
    }
}

/// The view of a bitmap always has the shape of a grid.
pub proof fn lemma_view_is_grid(b: BitMap)
    ensures
        is_grid(b@),
{
}

impl BitMap {
    /// The empty bitmap: every cell is 0.
    pub fn new() -> (b: BitMap)
        ensures
            forall|r: int, c: int| 0 <= r < 8 && 0 <= c < 8 ==> b@[r][c] == 0,
    {
        BitMap([[0u8; 8]; 8])
    }

    /// Writes one cell.
    fn put(&mut self, r: usize, c: usize, v: u8)
        requires
            r < 8,
            c < 8,
        ensures
            final(self)@ == old(self)@.update(r as int, old(self)@[r as int].update(c as int, v)),
    {
        self.0[r][c] = v;
    }

    /// Mirrors the bitmap left to right, in place.
    pub fn invert_side(&mut self)
        ensures
            final(self)@ == mirrored(old(self)@),
    {
        let mut r: usize = 0;
        while r < 8
            invariant
                r <= 8,
                is_grid(self@),
                forall|i: int, j: int|
                    0 <= i < r && 0 <= j < 8 ==> #[trigger] self@[i][j] == old(self)@[i][7 - j],
                forall|i: int| r <= i < 8 ==> #[trigger] self@[i] == old(self)@[i],
            decreases 8 - r,
        {
            let mut c: usize = 0;
            while c < 4
                invariant
                    r < 8,
                    c <= 4,
                    is_grid(self@),
                    forall|i: int, j: int|
                        0 <= i < r && 0 <= j < 8 ==> #[trigger] self@[i][j] == old(self)@[i][7 - j],
                    forall|i: int| r < i < 8 ==> #[trigger] self@[i] == old(self)@[i],
                    forall|j: int|
                        0 <= j < c || 7 - c < j < 8 ==> #[trigger] self@[r as int][j] == old(
                            self,
                        )@[r as int][7 - j],
                    forall|j: int|
                        c <= j <= 7 - c ==> #[trigger] self@[r as int][j] == old(self)@[r as int][j],
                decreases 4 - c,
            {
                let left = self.0[r][c];
                let right = self.0[r][7 - c];
                self.put(r, c, right);
                self.put(r, 7 - c, left);
                c += 1;
            }
            r += 1;
        }
        assert(self@ =~~= mirrored(old(self)@));
    }

    /// Turns the bitmap a quarter turn to the right, in place.
    pub fn right_rotate(&mut self)
        ensures
            final(self)@ == rotated(old(self)@),
    {
        let mut turned = BitMap::new();
        let mut r: usize = 0;
        while r < 8
            invariant
                r <= 8,
                is_grid(turned@),
                forall|i: int, j: int|
                    0 <= i < r && 0 <= j < 8 ==> #[trigger] turned@[i][j] == self@[7 - j][i],
            decreases 8 - r,
        {
            let mut c: usize = 0;
            while c < 8
                invariant
                    r < 8,
                    c <= 8,
                    is_grid(turned@),
                    forall|i: int, j: int|
                        0 <= i < r && 0 <= j < 8 ==> #[trigger] turned@[i][j] == self@[7 - j][i],
                    forall|j: int| 0 <= j < c ==> #[trigger] turned@[r as int][j] == self@[7 - j][r as int],
                decreases 8 - c,
            {
                let v = self.0[7 - c][r];
                turned.put(r, c, v);
                c += 1;
            }
            r += 1;
        }
        assert(turned@ =~~= rotated(self@));
        *self = turned;
    }

    /// Packs the bitmap into its three bit-planes: high, middle and low bit
    /// of every colour code, cell `i` (row-major) at bit `i`.
    pub fn compress_map(self) -> (planes: (u64, u64, u64))
        ensures
            packs(self@, planes.0, planes.1, planes.2),
    {
        let mut hi: u64 = 0;
        let mut mid: u64 = 0;
        let mut lo: u64 = 0;
        let mut i: u64 = 0;
        proof {
            lemma_plane_start(self@, 2);
            lemma_plane_start(self@, 1);
            lemma_plane_start(self@, 0);
        }
        let mut r: usize = 0;
        while r < 8
            invariant
                r <= 8,
                i == 8 * r,
                plane_upto(self@, 2, hi, i as int),
                plane_upto(self@, 1, mid, i as int),
                plane_upto(self@, 0, lo, i as int),
            decreases 8 - r,
        {
            let mut c: usize = 0;
            while c < 8
                invariant
                    r < 8,
                    c <= 8,
                    i == 8 * r + c,
                    plane_upto(self@, 2, hi, i as int),
                    plane_upto(self@, 1, mid, i as int),
                    plane_upto(self@, 0, lo, i as int),
                decreases 8 - c,
            {
                let color = self.0[r][c];
                let x2: u64 = (color as u64 & 4) >> 2;
                let x1: u64 = (color as u64 & 2) >> 1;
                let x0: u64 = color as u64 & 1;
                proof {
                    lemma_code_planes(color);
                    lemma_plane_step(self@, 2, hi, i, x2);
                    lemma_plane_step(self@, 1, mid, i, x1);
                    lemma_plane_step(self@, 0, lo, i, x0);
                }
                hi |= x2 << i;
                mid |= x1 << i;
                lo |= x0 << i;
                i += 1;
                c += 1;
            }
            r += 1;
        }
        (hi, mid, lo)
    }

    /// Rebuilds the bitmap from its three bit-planes.
    pub fn from_compress(compressed: (u64, u64, u64)) -> (b: BitMap)
        ensures
            b@ == unpacked(compressed.0, compressed.1, compressed.2),
            codes_in_range(b@),
    {
        let (hi, mid, lo) = compressed;
        let mut map = BitMap::new();
        let mut i: u64 = 0;
        let mut r: usize = 0;
        while r < 8
            invariant
                r <= 8,
                i == 8 * r,
                is_grid(map@),
                forall|p: int, q: int|
                    0 <= p < r && 0 <= q < 8 ==> #[trigger] map@[p][q] == code_at(
                        hi,
                        mid,
                        lo,
                        8 * p + q,
                    ),
            decreases 8 - r,
        {
            let mut c: usize = 0;
            while c < 8
                invariant
                    r < 8,
                    c <= 8,
                    i == 8 * r + c,
                    is_grid(map@),
                    forall|p: int, q: int|
                        0 <= p < r && 0 <= q < 8 ==> #[trigger] map@[p][q] == code_at(
                            hi,
                            mid,
                            lo,
                            8 * p + q,
                        ),
                    forall|q: int|
                        0 <= q < c ==> #[trigger] map@[r as int][q] == code_at(
                            hi,
                            mid,
                            lo,
                            8 * r + q,
                        ),
                decreases 8 - c,
            {
                let x2: u64 = (hi >> i) & 1;
                let x1: u64 = (mid >> i) & 1;
                let x0: u64 = (lo >> i) & 1;
                proof {
                    lemma_low_bit(hi, i);
                    lemma_low_bit(mid, i);
                    lemma_low_bit(lo, i);
                    lemma_join_planes(x2, x1, x0);
                }
                let code: u8 = ((x2 << 2) | (x1 << 1) | x0) as u8;
                map.put(r, c, code);
                i += 1;
                c += 1;
            }
            r += 1;
        }
        assert(map@ =~~= unpacked(hi, mid, lo));
        map
    }

    /// Whether every cell holds a colour code of three bits.
    pub fn is_in_range(&self) -> (ok: bool)
        ensures
            ok == codes_in_range(self@),
    {
        let mut r: usize = 0;
        while r < 8
            invariant
                r <= 8,
                forall|p: int, q: int| 0 <= p < r && 0 <= q < 8 ==> #[trigger] self@[p][q] <= 7,
            decreases 8 - r,
        {
            let mut c: usize = 0;
            while c < 8
                invariant
                    r < 8,
                    c <= 8,
                    forall|p: int, q: int| 0 <= p < r && 0 <= q < 8 ==> #[trigger] self@[p][q] <= 7,
                    forall|q: int| 0 <= q < c ==> #[trigger] self@[r as int][q] <= 7,
                decreases 8 - c,
            {
                if self.0[r][c] > 7 {
                    assert(self@[r as int][c as int] > 7);
                    return false;
                }
                c += 1;
            }
            r += 1;
        }
        true
    }

    /// Appends the rows of the bitmap, each on a line of its own, every
    /// cell followed by a comma and a blank.
    pub fn append_rows(&self, t: &mut String)
        ensures
            final(t)@ == old(t)@ + rows_text(self@, 8),
    {
        let mut r: usize = 0;
        while r < 8
            invariant
                r <= 8,
                t@ == old(t)@ + rows_text(self@, r as nat),
            decreases 8 - r,
        {
            let ghost start = t@;
            let mut c: usize = 0;
            while c < 8
                invariant
                    r < 8,
                    c <= 8,
                    t@ == start + cells_text(self@[r as int], c as nat),
                decreases 8 - c,
            {
                append_cell(t, self.0[r][c]);
                t.append(", ");
                c += 1;
            }
            t.append("\n");
            r += 1;
        }
    }

    /// The bitmap as text: its rows between a line of underscores and a
    /// line of hyphens.
    pub fn to_text(&self) -> (t: String)
        ensures
            t@ == bitmap_text(self@),
    {
        let mut t = String::from_str("___\n");
        self.append_rows(&mut t);
        t.append("---\n");
        t
    }
}

/// Unpacking the bit-planes of any grid gives the grid with every cell
/// reduced to its three low bits.
pub proof fn lemma_unpack_pack_low(g: Grid, hi: u64, mid: u64, lo: u64)
    requires
        is_grid(g),
        packs(g, hi, mid, lo),
    ensures
        unpacked(hi, mid, lo) == low_codes(g),
{
    assert forall|r: int, c: int| 0 <= r < 8 && 0 <= c < 8 implies unpacked(hi, mid, lo)[r][c]
        == low_codes(g)[r][c] by {
        let i = 8 * r + c;
        let v = g[r][c];
    }
    assert(unpacked(hi, mid, lo) =~~= low_codes(g));
}

/// Unpacking the bit-planes of a grid of 3-bit codes gives the grid back.
pub proof fn lemma_unpack_pack(g: Grid, hi: u64, mid: u64, lo: u64)
    requires
        is_grid(g),
        codes_in_range(g),
        packs(g, hi, mid, lo),
    ensures
        unpacked(hi, mid, lo) == g,
{
    lemma_unpack_pack_low(g, hi, mid, lo);
    assert(low_codes(g) =~~= g);
}

/// Any three words are the bit-planes of the grid they unpack to.
pub proof fn lemma_pack_unpack(hi: u64, mid: u64, lo: u64)
    ensures
        is_grid(unpacked(hi, mid, lo)),
        codes_in_range(unpacked(hi, mid, lo)),
        packs(unpacked(hi, mid, lo), hi, mid, lo),
{
    let g = unpacked(hi, mid, lo);
    assert forall|i: int| 0 <= i < 64 implies cell_at(g, i) == code_at(hi, mid, lo, i) by {}
}

/// A word is determined by its 64 bits.
pub proof fn lemma_word_by_bits(a: u64, b: u64)
    requires
        forall|i: int| 0 <= i < 64 ==> bit_of(a, i) == bit_of(b, i),
    ensures
        a == b,
{
    lemma_tails_agree(a, b, 0);
    assert(a == b) by (bit_vector)
        requires
            a >> 0 == b >> 0,
    ;
}

/// Two words with the same bits agree from bit `n` upwards.
proof fn lemma_tails_agree(a: u64, b: u64, n: u64)
    requires
        n < 64,
        forall|i: int| 0 <= i < 64 ==> bit_of(a, i) == bit_of(b, i),
    ensures
        a >> n == b >> n,
    decreases 64 - n,
{
    assert(bit_of(a, n as int) == bit_of(b, n as int));
    lemma_low_bit(a, n);
    lemma_low_bit(b, n);
    if n == 63 {
        assert(a >> n == b >> n) by (bit_vector)
            requires
                n == 63,
                (a >> n) & 1 == (b >> n) & 1,
        ;
    } else {
        lemma_tails_agree(a, b, (n + 1) as u64);
        let m = (n + 1) as u64;
        assert(a >> n == b >> n) by (bit_vector)
            requires
                n < 63,
                m == n + 1,
                a >> m == b >> m,
                (a >> n) & 1 == (b >> n) & 1,
        ;
    }
}

/// The bit-planes of a grid are unique: packing is a function of the grid.
pub proof fn lemma_packing_unique(g: Grid, p: (u64, u64, u64), q: (u64, u64, u64))
    requires
        packs(g, p.0, p.1, p.2),
        packs(g, q.0, q.1, q.2),
    ensures
        p == q,
{
    lemma_word_by_bits(p.0, q.0);
    lemma_word_by_bits(p.1, q.1);
    lemma_word_by_bits(p.2, q.2);
}

/// Mirroring twice gives the grid back.
pub proof fn lemma_mirror_involution(g: Grid)
    requires
        is_grid(g),
    ensures
        mirrored(mirrored(g)) == g,
{
    assert(mirrored(mirrored(g)) =~~= g);
}

/// Two quarter turns are the reflection through the centre.
pub proof fn lemma_rotate_twice(g: Grid)
    requires
        is_grid(g),
    ensures
        rotated(rotated(g)) == reflected(g),
{
    assert(rotated(rotated(g)) =~~= reflected(g));
}

/// Four quarter turns give the grid back.
pub proof fn lemma_rotate_four_times(g: Grid)
    requires
        is_grid(g),
    ensures
        rotated(rotated(rotated(rotated(g)))) == g,
{
    assert(rotated(rotated(rotated(rotated(g)))) =~~= g);
}

} // verus!
