//! Two renderings of a digest as bar glyphs.
//!
//! The walk renderer runs a 128-step walk over a ring of 32 cells, two bits
//! per step, and draws each cell's visit count against the largest count. The
//! direct renderer draws each of the first 16 bytes as one of 8 bar heights.
use vstd::prelude::*;
use crate::text::push_char;

verus! {

/// The number of cells of the walk's ring.
pub const WIDTH: usize = 32;

/// The two bits that drive step `t` of the walk: byte `t / 4`, pairs taken
/// from the most significant end.
pub open spec fn step_bits(bytes: Seq<u8>, t: nat) -> u8 {
    (bytes[(t / 4) as int] >> ((6 - 2 * (t % 4)) as u8)) & 3u8
}

/// The cell reached from `pos` on bits `b`: 0 moves left, 1 stays, 2 moves
/// right, 3 moves right twice, wrapping round the ring.
pub open spec fn next_cell(pos: int, b: u8) -> int {
    (pos + b - 1) % (WIDTH as int)
}

/// The cell and the visit counts after `t` steps: the walk starts at cell 16
/// with no visits, and each step adds one visit (saturating at 255) to the
/// cell it lands on.
pub open spec fn walk(bytes: Seq<u8>, t: nat) -> (int, Seq<u8>)
    decreases t,
{
    if t == 0 {
        (16, Seq::new(WIDTH as nat, |i: int| 0u8))
    } else {
        let (p, g) = walk(bytes, (t - 1) as nat);
        let np = next_cell(p, step_bits(bytes, (t - 1) as nat));
        (np, g.update(np, if g[np] == 255 { 255u8 } else { (g[np] + 1) as u8 }))
    }
}

/// The largest of the first `n` counts, and at least 1.
pub open spec fn max_count(g: Seq<u8>, n: nat) -> nat
    decreases n,
{
    if n == 0 {
        1
    } else {
        let m = max_count(g, (n - 1) as nat);
        if g[n - 1] as nat > m {
            g[n - 1] as nat
        } else {
            m
        }
    }
}

/// The bar level, 0 ..= 8, of a count against the largest count `m`: 0 for
/// no visit, else `count * 8 / m` clamped to 1 ..= 8.
pub open spec fn level(count: nat, m: nat) -> nat {
    if count == 0 {
        0
    } else {
        let l = count * 8 / m;
        if l < 1 {
            1
        } else if l > 8 {
            8
        } else {
            l
        }
    }
}

/// Glyph 0 is a blank; glyphs 1 ..= 8 are the bars U+2581 ..= U+2588.
pub open spec fn glyph(l: nat) -> char {
    if l == 0 {
        ' '
    } else {
        (0x2580 + l) as char
    }
}

/// The walk rendering of 32 digest bytes: one glyph per cell.
pub open spec fn walk_art(bytes: Seq<u8>) -> Seq<char> {
    let g = walk(bytes, 128).1;
    Seq::new(WIDTH as nat, |i: int| glyph(level(g[i] as nat, max_count(g, WIDTH as nat))))
}

/// The direct rendering: glyph `1 + b / 32` for each of the first 16 bytes.
pub open spec fn bar_art_text(bytes: Seq<u8>) -> Seq<char> {
    Seq::new(16, |i: int| glyph(1 + (bytes[i] / 32) as nat))
}

fn glyph_char(l: usize) -> (c: char)
    requires
        l <= 8,
    ensures
        c == glyph(l as nat),
{
    match l {
        0 => ' ',
        1 => '\u{2581}',
        2 => '\u{2582}',
        3 => '\u{2583}',
        4 => '\u{2584}',
        5 => '\u{2585}',
        6 => '\u{2586}',
        7 => '\u{2587}',
        _ => '\u{2588}',
    }
}

proof fn lemma_max_count(g: Seq<u8>, n: nat)
    requires
        n <= g.len(),
    ensures
        1 <= max_count(g, n) <= 255,
        forall|i: int| 0 <= i < n ==> g[i] <= max_count(g, n),
    decreases n,
{
    if n > 0 {
        lemma_max_count(g, (n - 1) as nat);
    }
}

proof fn lemma_walk_shape(bytes: Seq<u8>, t: nat)
    ensures
        0 <= walk(bytes, t).0 < WIDTH,
        walk(bytes, t).1.len() == WIDTH,
    decreases t,
{
    if t > 0 {
        lemma_walk_shape(bytes, (t - 1) as nat);
    }
}

/// Renders the digest by the 128-step walk: 32 glyphs, one per cell.
pub fn generate_omikuji_art(hash_bytes: &[u8; 32]) -> (r: String)
    ensures
        r@ == walk_art(hash_bytes@),
{
    let mut grid = [0u8; 32];
    let mut position: usize = WIDTH / 2;
    let mut i: usize = 0;
    proof {
        assert(grid@ =~= walk(hash_bytes@, 0).1);
    }
    while i < 32
        invariant
            i <= 32,
            position < WIDTH,
            position == walk(hash_bytes@, 4 * i as nat).0,
            grid@ == walk(hash_bytes@, 4 * i as nat).1,
        decreases 32 - i,
    {
        let byte = hash_bytes[i];
        let mut k: usize = 0;
        while k < 4
            invariant
                i < 32,
                k <= 4,
                byte == hash_bytes@[i as int],
                position < WIDTH,
                position == walk(hash_bytes@, (4 * i + k) as nat).0,
                grid@ == walk(hash_bytes@, (4 * i + k) as nat).1,
            decreases 4 - k,
        {
            let bits = (byte >> ((6 - 2 * k) as u8)) & 3;
            proof {
                let t = (4 * i + k) as nat;
                assert(t / 4 == i && t % 4 == k);
                assert(bits == step_bits(hash_bytes@, t));
                assert(bits <= 3) by (bit_vector)
                    requires
                        bits == (byte >> ((6 - 2 * k) as u8)) & 3u8,
                ;
                lemma_walk_shape(hash_bytes@, t);
            }
            position = (position + bits as usize + WIDTH - 1) % WIDTH;
            let c = grid[position];
            grid[position] = if c == 255 { 255 } else { c + 1 };
            k = k + 1;
            proof {
                let t = (4 * i + k) as nat;
                assert(grid@ =~= walk(hash_bytes@, t).1);
            }
        }
        i = i + 1;
    }
    let mut max: u8 = 1;
    let mut j: usize = 0;
    while j < 32
        invariant
            j <= 32,
            grid@.len() == 32,
            max == max_count(grid@, j as nat),
        decreases 32 - j,
    {
        if grid[j] > max {
            max = grid[j];
        }
        j = j + 1;
    }
    proof {
        lemma_max_count(grid@, 32);
    }
    let mut art = String::new();
    let mut n: usize = 0;
    while n < 32
        invariant
            n <= 32,
            grid@ == walk(hash_bytes@, 128).1,
            max == max_count(grid@, 32),
            1 <= max <= 255,
            forall|q: int| 0 <= q < 32 ==> grid@[q] <= max,
            art@ =~= walk_art(hash_bytes@).subrange(0, n as int),
        decreases 32 - n,
    {
        let count = grid[n];
        let lvl: usize = if count == 0 {
            0
        } else {
            let l = (count as usize * 8) / max as usize;
            if l < 1 {
                1
            } else if l > 8 {
                8
            } else {
                l
            }
        };
        push_char(&mut art, glyph_char(lvl));
        n = n + 1;
    }
    art
}

/// Renders the first 16 digest bytes directly, one bar glyph each.
pub fn bar_art(hash_bytes: &[u8; 32]) -> (r: String)
    ensures
        r@ == bar_art_text(hash_bytes@),
{
    let mut art = String::new();
    let mut n: usize = 0;
    while n < 16
        invariant
            n <= 16,
            art@ =~= bar_art_text(hash_bytes@).subrange(0, n as int),
        decreases 16 - n,
    {
        push_char(&mut art, glyph_char(1 + (hash_bytes[n] / 32) as usize));
        n = n + 1;
    }
    art
}

/// The direct rendering of an all-zero digest is 16 lowest bars, and that of
/// an all-0xFF digest is 16 full bars.
pub proof fn lemma_bar_art_extremes(bytes: Seq<u8>)
    requires
        bytes.len() == 32,
    ensures
        (forall|i: int| 0 <= i < 32 ==> bytes[i] == 0u8) ==> bar_art_text(bytes) =~= Seq::new(
            16,
            |i: int| '\u{2581}',
        ),
        (forall|i: int| 0 <= i < 32 ==> bytes[i] == 255u8) ==> bar_art_text(bytes) =~= Seq::new(
            16,
            |i: int| '\u{2588}',
        ),
{
}

} // verus!
