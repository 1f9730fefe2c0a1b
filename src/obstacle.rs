use vstd::prelude::*;
use crate::block::Block;
use crate::constants::{BLOCK_SIDE, GRID_HEIGHT, GRID_WIDTH};
use crate::geometry::{Rect, Vector2};
use crate::prune::{retain_live, Live};

verus! {

impl Live for Block {
    open spec fn live(&self) -> bool {
        self.active
    }

    fn is_live(&self) -> (r: bool) {
        self.active
    }
}

/// The shape of a shield, 13 rows of 23 cells:
///
/// ```text
/// ....XXXXXXXXXXXXXXX....
/// ...XXXXXXXXXXXXXXXXX...
/// ..XXXXXXXXXXXXXXXXXXX..
/// .XXXXXXXXXXXXXXXXXXXXX.
/// XXXXXXXXXXXXXXXXXXXXXXX   (rows 4 to 9 are full)
/// XXXXXX...........XXXXXX
/// XXXXX.............XXXXX
/// XXXX...............XXXX
/// ```
pub open spec fn stencil(row: int, col: int) -> bool {
    &&& 0 <= row < GRID_HEIGHT
    &&& 0 <= col < GRID_WIDTH
    &&& if row < 4 {
        4 - row <= col <= 18 + row
    } else if row < 10 {
        true
    } else {
        col <= 15 - row || col >= 7 + row
    }
}

fn in_stencil(row: usize, col: usize) -> (r: bool)
    ensures
        r == stencil(row as int, col as int),
{
    if row >= GRID_HEIGHT || col >= GRID_WIDTH {
        false
    } else if row < 4 {
        4 - row <= col && col <= 18 + row
    } else if row < 10 {
        true
    } else {
        col + row <= 15 || col >= 7 + row
    }
}

/// The blocks of a shield with top-left corner (x, y) for the first `n`
/// cells of the stencil, taken row by row.
pub open spec fn stencil_blocks(x: int, y: int, n: nat) -> Seq<Block>
    decreases n,
{
    if n == 0 {
        Seq::empty()
    } else {
        let k = n - 1;
        let row = k / (GRID_WIDTH as int);
        let col = k % (GRID_WIDTH as int);
        let earlier = stencil_blocks(x, y, (n - 1) as nat);
        if stencil(row, col) {
            earlier.push(
                Block {
                    position: Vector2 {
                        x: (x + col * BLOCK_SIDE) as i32,
                        y: (y + row * BLOCK_SIDE) as i32,
                    },
                    active: true,
                },
            )
        } else {
            earlier
        }
    }
}

/// All the blocks of a fresh shield with top-left corner (x, y).
pub open spec fn shield(x: int, y: int) -> Seq<Block> {
    stencil_blocks(x, y, (GRID_WIDTH * GRID_HEIGHT) as nat)
}

proof fn lemma_cell_index(row: int, col: int)
    requires
        0 <= row,
        0 <= col < 23,
    ensures
        (row * 23 + col) / 23 == row,
        (row * 23 + col) % 23 == col,
{
    vstd::arithmetic::div_mod::lemma_fundamental_div_mod_converse(row * 23 + col, 23, row, col);
}

/// A shield: blocks that die one by one when hit.
#[derive(Debug)]
pub struct Obstacle {
    pub blocks: Vec<Block>,
}

impl Obstacle {
    pub fn new(x: usize, y: usize) -> (r: Obstacle)
        requires
            x + (GRID_WIDTH - 1) * BLOCK_SIDE <= i32::MAX,
            y + (GRID_HEIGHT - 1) * BLOCK_SIDE <= i32::MAX,
        ensures
            r.blocks@ == shield(x as int, y as int),
    {
        let mut blocks: Vec<Block> = Vec::new();
        let mut row: usize = 0;
        while row < GRID_HEIGHT
            invariant
                row <= GRID_HEIGHT,
                x + (GRID_WIDTH - 1) * BLOCK_SIDE <= i32::MAX,
                y + (GRID_HEIGHT - 1) * BLOCK_SIDE <= i32::MAX,
                blocks@ == stencil_blocks(x as int, y as int, (row * GRID_WIDTH) as nat),
            decreases GRID_HEIGHT - row,
        {
            let mut col: usize = 0;
            while col < GRID_WIDTH
                invariant
                    row < GRID_HEIGHT,
                    col <= GRID_WIDTH,
                    x + (GRID_WIDTH - 1) * BLOCK_SIDE <= i32::MAX,
                    y + (GRID_HEIGHT - 1) * BLOCK_SIDE <= i32::MAX,
                    blocks@ == stencil_blocks(x as int, y as int, (row * GRID_WIDTH + col) as nat),
                decreases GRID_WIDTH - col,
            {
                proof {
                    lemma_cell_index(row as int, col as int);
                }
                if in_stencil(row, col) {
                    let px = (x + col * 3) as i32;
                    let py = (y + row * 3) as i32;
                    blocks.push(Block::new(Vector2 { x: px, y: py }));
                }
                col += 1;
            }
            row += 1;
        }
        Obstacle { blocks }
    }

    pub fn remove_inactive_blocks(&mut self)
        ensures
            final(self).blocks@ == old(self).blocks@.filter(|b: Block| b.live()),
    {
        self.blocks = retain_live(&self.blocks);
    }

    /// A shot with rectangle `shot` passes by: every active block it touches
    /// goes out. Returns whether it touched any.
    pub fn strike(&mut self, shot: Rect) -> (hit: bool)
        ensures
            final(self).blocks@ == old(self).blocks@.map_values(|b: Block| b.struck(shot)),
            hit == exists|k: int| 0 <= k < old(self).blocks@.len() && #[trigger] old(self).blocks@[k].hit_by(shot),
    {
        let ghost start = self.blocks@;
        let mut hit = false;
        let mut i: usize = 0;
        while i < self.blocks.len()
            invariant
                i <= self.blocks@.len(),
                self.blocks@.len() == start.len(),
                forall|k: int| 0 <= k < i ==> self.blocks@[k] == #[trigger] start[k].struck(shot),
                forall|k: int| i <= k < start.len() ==> self.blocks@[k] == start[k],
                hit == exists|k: int| 0 <= k < i && #[trigger] start[k].hit_by(shot),
            decreases start.len() - i,
        {
            let touched = self.blocks[i].active && self.blocks[i].get_rect().overlaps(shot);
            assert(touched == start[i as int].hit_by(shot));
            if touched {
                self.blocks[i].set_inactive();
                hit = true;
            }
            i += 1;
        }
        proof {
            assert(self.blocks@ =~= start.map_values(|b: Block| b.struck(shot)));
        }
        hit
    }
}

} // verus!
