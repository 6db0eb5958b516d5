//! The Snake simulation: a session object holding the board state, the
//! screen and palette buffers, and the per-frame state machine that a host
//! drives through `SnakeGame::update`.

use vstd::prelude::*;

use crate::buffer::OutputBuffer;
use crate::color::{rgb_color, Color, PaletteBuffer};
use crate::input::Input;
use crate::pixel;
use crate::pixel::PixelBuffer;
use crate::rng::{rng_below, seed_rng};
use crate::tile::TilePos;
use crate::vec2::{is_opposite, IVec2};
use crate::pixel::{in_circle, in_rect};
use crate::tile::in_tile;
use crate::{
    MAP_HEIGHT, MAP_POS_X, MAP_POS_Y, MAP_WIDTH, OUTPUT_BUFFER_SIZE, PALETTE_COLORS,
    SCREEN_HEIGHT, SCREEN_WIDTH, TICKS_PER_STEP, TILE_SIZE,
};

verus! {

/// Palette index of the screen border around the board.
pub const BORDER_COLOR: u8 = 18;

/// Palette index of the board background.
pub const MAP_COLOR: u8 = 0;

/// Palette index of the snake while the game is running.
pub const WORM_COLOR: u8 = 16;

/// Palette index of the apple.
pub const APPLE_COLOR: u8 = 3;

/// Palette index of the apple's stem.
pub const APPLE_STEM_COLOR: u8 = 19;

/// Palette index of the snake once the game is over.
pub const DEAD_WORM_COLOR: u8 = 14;

/// How many segments the snake grows by when it eats an apple.
pub const GROWTH_PER_APPLE: usize = 5;

/// Whether the simulation still advances. `GameOver` is terminal: nothing
/// but re-initialization leaves it.
#[derive(Clone, Copy, PartialEq, Eq, Structural, Debug)]
pub enum State {
    Running,
    GameOver,
}

impl Default for State {
    /// A session starts out running.
    fn default() -> (st: State)
        ensures
            st == State::Running,
    {
        State::Running
    }
}

/// One link of the snake: its tile and the direction it will move on the
/// next step. The head's direction is the player-steered movement
/// direction; each trailing segment's direction points at the segment ahead
/// of it.
#[derive(Clone, Copy, PartialEq, Eq, Structural, Debug)]
pub struct SnakeSegment {
    pub pos: TilePos,
    pub dir: IVec2,
}

impl SnakeSegment {
    /// A new trailing segment: parked at `pos`, not yet moving.
    pub fn new(pos: TilePos) -> (s: SnakeSegment)
        ensures
            s == (SnakeSegment { pos, dir: IVec2 { x: 0i32, y: 0i32 } }),
    {
        SnakeSegment { pos, dir: IVec2::new(0, 0) }
    }
}

/// The tile one step from `p` in direction `d`.
pub open spec fn tile_plus(p: TilePos, d: IVec2) -> TilePos {
    TilePos { x: (p.x + d.x) as i32, y: (p.y + d.y) as i32 }
}

/// True when segment `s` points at segment `next`: taking one step in its
/// direction lands it where `next` stands.
pub open spec fn points_to(s: SnakeSegment, next: SnakeSegment) -> bool {
    s.pos.x + s.dir.x == next.pos.x && s.pos.y + s.dir.y == next.pos.y
}

/// True when every trailing segment points at the segment ahead of it, so
/// that one movement step shifts the whole chain forward by one tile.
pub open spec fn chain_ok(segs: Seq<SnakeSegment>) -> bool {
    forall|i: int| 1 <= i < segs.len() ==> points_to(#[trigger] segs[i], segs[i - 1])
}

/// True when the whole chain is parked on the head's tile with no movement
/// pending: the starting configuration, kept until the first steer.
pub open spec fn stacked(segs: Seq<SnakeSegment>) -> bool {
    forall|i: int|
        0 <= i < segs.len() ==> (#[trigger] segs[i]).dir.is_zero() && segs[i].pos == segs[0].pos
}

/// True when some segment other than the head stands on `p`: the head is
/// never compared against itself.
pub open spec fn hits_body(positions: Seq<TilePos>, p: TilePos) -> bool {
    exists|i: int| 1 <= i < positions.len() && positions[i] == p
}

/// True when the snake covers every tile of the board, leaving no free
/// tile for an apple.
pub open spec fn covers_board(positions: Seq<TilePos>) -> bool {
    forall|t: TilePos| t.in_board() ==> positions.contains(t)
}

/// The direction adopted after one frame of input: the steered direction if
/// it is exactly one of the four cardinal unit vectors and not the exact
/// opposite of the current direction; otherwise the current direction.
pub open spec fn next_dir(cur: IVec2, inp: IVec2) -> IVec2 {
    if inp.is_cardinal() && !is_opposite(inp, cur) {
        inp
    } else {
        cur
    }
}

/// The 20 colors of the board's palette, as 24-bit RGB values.
pub open spec fn palette_rgbs() -> Seq<u32> {
    seq![
        0xffffe1u32,
        0xffd8a9u32,
        0xffb366u32,
        0xff5b4fu32,
        0xf2af92u32,
        0xf39d91u32,
        0xd38e84u32,
        0xc37289u32,
        0xad82cfu32,
        0x8455a9u32,
        0x794d81u32,
        0x4a3778u32,
        0xa9548au32,
        0x814d6eu32,
        0xc92e70u32,
        0x9e2081u32,
        0x7e9770u32,
        0x5d7668u32,
        0x235a63u32,
        0x533a44u32,
    ]
}

/// A Snake session: the simulation state plus the two buffers the host
/// reads after every update.
pub struct SnakeGame {
    ticks: u64,
    state: State,
    segs: Vec<SnakeSegment>,
    food: TilePos,
    rng: Option<rand::rngs::SmallRng>,
    output: OutputBuffer,
    palette: PaletteBuffer,
}

impl SnakeGame {
    /// The whole segment chain, head first.
    pub closed spec fn segments(&self) -> Seq<SnakeSegment> {
        self.segs@
    }

    /// How many updates have run.
    pub closed spec fn ticks_spec(&self) -> u64 {
        self.ticks
    }

    /// Whether the simulation still advances.
    pub closed spec fn state_spec(&self) -> State {
        self.state
    }

    /// The apple's tile.
    pub closed spec fn food_spec(&self) -> TilePos {
        self.food
    }

    /// The screen buffer's bytes.
    pub closed spec fn output_view(&self) -> Seq<u8> {
        self.output@
    }

    /// The palette's colors.
    pub closed spec fn palette_view(&self) -> Seq<Color> {
        self.palette@
    }

    /// The tiles the snake occupies, head first.
    pub open spec fn positions(&self) -> Seq<TilePos> {
        self.segments().map_values(|s: SnakeSegment| s.pos)
    }

    /// The direction the head will move on the next step.
    pub open spec fn head_dir(&self) -> IVec2 {
        self.segments()[0].dir
    }

    /// The screen pixel at `(x, y)`, as the host would read it.
    pub open spec fn out_pixel(&self, x: int, y: int) -> u8 {
        self.output_view()[y * SCREEN_WIDTH + x]
    }

    /// The session invariant: the snake always has a head and a tail and
    /// stays on the board; the apple is on the board and, while the game
    /// runs, off the snake; the head moves only in cardinal directions;
    /// while the game runs, the chain shifts consistently, and until the
    /// first steer it is parked on its starting tile.
    pub open spec fn wf(&self) -> bool {
        &&& 2 <= self.segments().len()
        &&& self.output_view().len() == OUTPUT_BUFFER_SIZE
        &&& self.palette_view().len() == PALETTE_COLORS
        &&& forall|i: int|
            0 <= i < self.segments().len() ==> (#[trigger] self.segments()[i]).pos.in_board()
        &&& self.food_spec().in_board()
        &&& (self.state_spec() == State::Running ==> !self.positions().contains(self.food_spec()))
        &&& (self.head_dir().is_zero() || self.head_dir().is_cardinal())
        &&& (self.state_spec() == State::Running ==> chain_ok(self.segments()))
        &&& (self.state_spec() == State::Running && self.head_dir().is_zero() ==> stacked(
            self.segments(),
        ))
    }

    /// Advances the tick counter by one.
    pub fn tick(&mut self)
        requires
            old(self).ticks_spec() < u64::MAX,
        ensures
            final(self).ticks_spec() == old(self).ticks_spec() + 1,
            final(self).segments() == old(self).segments(),
            final(self).state_spec() == old(self).state_spec(),
            final(self).food_spec() == old(self).food_spec(),
            final(self).output_view() == old(self).output_view(),
            final(self).palette_view() == old(self).palette_view(),
    {
        self.ticks = self.ticks + 1;
    }

    /// True on the ticks where the simulation advances: once every
    /// `TICKS_PER_STEP` updates.
    pub fn on_step(&self) -> (r: bool)
        ensures
            r == (self.ticks_spec() % TICKS_PER_STEP == 0),
    {
        self.ticks % TICKS_PER_STEP == 0
    }

    /// True while the game is running.
    pub fn alive(&self) -> (r: bool)
        ensures
            r == (self.state_spec() == State::Running),
    {
        self.state == State::Running
    }

    /// Steers the head: the two controllers' inputs are combined, reduced
    /// to a direction, and adopted if that direction is exactly cardinal
    /// and not an instant reversal.
    pub fn update_head_dir(&mut self, p1: Input, p2: Input)
        requires
            1 <= old(self).segments().len(),
            old(self).head_dir().is_zero() || old(self).head_dir().is_cardinal(),
        ensures
            final(self).segments().len() == old(self).segments().len(),
            final(self).segments()[0].pos == old(self).segments()[0].pos,
            final(self).head_dir() == next_dir(
                old(self).head_dir(),
                Input::union_spec(p1, p2).dir_spec(),
            ),
            forall|i: int|
                1 <= i < old(self).segments().len() ==> final(self).segments()[i] == old(
                    self,
                ).segments()[i],
            final(self).ticks_spec() == old(self).ticks_spec(),
            final(self).state_spec() == old(self).state_spec(),
            final(self).food_spec() == old(self).food_spec(),
            final(self).output_view() == old(self).output_view(),
            final(self).palette_view() == old(self).palette_view(),
    {
        let input = p1.union(p2);
        let input_dir = IVec2::new(input.x(), input.y());
        let cur = self.segs[0].dir;

        // exactly one axis steered: a cardinal direction, not diagonal or none
        let cardinal = (input_dir.x == 0) != (input_dir.y == 0);
        // no immediate 180-degree turns
        let reversal = input_dir.x + cur.x == 0 && input_dir.y + cur.y == 0;

        if cardinal && !reversal {
            let mut head = self.segs[0];
            head.dir = input_dir;
            self.segs[0] = head;
        }
    }
    /// Moves the head one tile in its direction, unless it is not moving
    /// yet. Stepping off the board or into a trailing segment ends the
    /// game instead of moving.
    pub fn move_head(&mut self)
        requires
            old(self).wf(),
            old(self).state_spec() == State::Running,
        ensures
            final(self).ticks_spec() == old(self).ticks_spec(),
            final(self).food_spec() == old(self).food_spec(),
            final(self).output_view() == old(self).output_view(),
            final(self).palette_view() == old(self).palette_view(),
            final(self).segments().len() == old(self).segments().len(),
            forall|i: int|
                1 <= i < old(self).segments().len() ==> final(self).segments()[i] == old(
                    self,
                ).segments()[i],
            old(self).head_dir().is_zero() ==> final(self).segments() == old(self).segments()
                && final(self).state_spec() == State::Running,
            !old(self).head_dir().is_zero() && (!tile_plus(
                old(self).positions()[0],
                old(self).head_dir(),
            ).in_board() || hits_body(
                old(self).positions(),
                tile_plus(old(self).positions()[0], old(self).head_dir()),
            )) ==> final(self).state_spec() == State::GameOver && final(self).segments() == old(
                self,
            ).segments(),
            !old(self).head_dir().is_zero() && tile_plus(
                old(self).positions()[0],
                old(self).head_dir(),
            ).in_board() && !hits_body(
                old(self).positions(),
                tile_plus(old(self).positions()[0], old(self).head_dir()),
            ) ==> final(self).state_spec() == State::Running && final(self).segments()[0] == (
            SnakeSegment {
                pos: tile_plus(old(self).positions()[0], old(self).head_dir()),
                dir: old(self).head_dir(),
            }),
    {
        proof {
            assert(old(self).positions().len() == old(self).segments().len());
            assert(forall|i: int|
                0 <= i < old(self).segments().len() ==> old(self).positions()[i] == (
                #[trigger] old(self).segments()[i]).pos);
        }
        let d = self.segs[0].dir;
        if d.x == 0 && d.y == 0 {
            return;
        }
        let head = self.segs[0].pos;
        let new_pos = TilePos::new(head.x + d.x, head.y + d.y);

        let off_board = new_pos.x < 0 || new_pos.y < 0 || new_pos.x >= MAP_WIDTH || new_pos.y
            >= MAP_HEIGHT;
        let dead = off_board || contains_pos_from(&self.segs, 1, new_pos);

        if dead {
            self.state = State::GameOver;
        } else {
            let mut h = self.segs[0];
            h.pos = new_pos;
            self.segs[0] = h;
        }
    }

    /// Advances every trailing segment one tile in its stored direction;
    /// with the chain consistent, each lands where the segment ahead of it
    /// stood.
    pub fn move_body(&mut self)
        requires
            1 <= old(self).segments().len(),
            forall|i: int|
                1 <= i < old(self).segments().len() ==> tile_plus(
                    (#[trigger] old(self).segments()[i]).pos,
                    old(self).segments()[i].dir,
                ).in_board(),
        ensures
            final(self).ticks_spec() == old(self).ticks_spec(),
            final(self).state_spec() == old(self).state_spec(),
            final(self).food_spec() == old(self).food_spec(),
            final(self).output_view() == old(self).output_view(),
            final(self).palette_view() == old(self).palette_view(),
            final(self).segments().len() == old(self).segments().len(),
            final(self).segments()[0] == old(self).segments()[0],
            forall|i: int|
                1 <= i < old(self).segments().len() ==> final(self).segments()[i] == (
                SnakeSegment {
                    pos: tile_plus(
                        (#[trigger] old(self).segments()[i]).pos,
                        old(self).segments()[i].dir,
                    ),
                    dir: old(self).segments()[i].dir,
                }),
    {
        let n = self.segs.len();
        let mut k: usize = 1;
        while k < n
            invariant
                n == self.segs@.len(),
                1 <= k <= n,
                self.segs@[0] == old(self).segments()[0],
                forall|i: int|
                    1 <= i < n ==> tile_plus(
                        (#[trigger] old(self).segments()[i]).pos,
                        old(self).segments()[i].dir,
                    ).in_board(),
                forall|i: int|
                    1 <= i < k ==> self.segs@[i] == (SnakeSegment {
                        pos: tile_plus(
                            (#[trigger] old(self).segments()[i]).pos,
                            old(self).segments()[i].dir,
                        ),
                        dir: old(self).segments()[i].dir,
                    }),
                forall|i: int| k <= i < n ==> self.segs@[i] == old(self).segments()[i],
                self.ticks == old(self).ticks_spec(),
                self.state == old(self).state_spec(),
                self.food == old(self).food_spec(),
                self.output@ == old(self).output_view(),
                self.palette@ == old(self).palette_view(),
            decreases n - k,
        {
            let seg = self.segs[k];
            let nx = seg.pos.x as i64 + seg.dir.x as i64;
            let ny = seg.pos.y as i64 + seg.dir.y as i64;
            let moved = SnakeSegment { pos: TilePos::new(nx as i32, ny as i32), dir: seg.dir };
            self.segs[k] = moved;
            k += 1;
        }
    }

    /// When the head has landed on the apple, grows the snake by
    /// `GROWTH_PER_APPLE` segments parked on the tail's tile, and moves the
    /// apple to a uniformly chosen free tile — the distribution rejection
    /// sampling would give. If the snake covers the whole board no tile
    /// can take the apple and the session ends. When the head is off the
    /// apple, nothing changes.
    pub fn eat_apples(&mut self)
        requires
            2 <= old(self).segments().len(),
            forall|i: int|
                0 <= i < old(self).segments().len() ==> (#[trigger] old(
                    self,
                ).segments()[i]).pos.in_board(),
            old(self).food_spec().in_board(),
        ensures
            final(self).ticks_spec() == old(self).ticks_spec(),
            final(self).output_view() == old(self).output_view(),
            final(self).palette_view() == old(self).palette_view(),
            final(self).food_spec().in_board(),
            old(self).positions()[0] != old(self).food_spec() ==> final(self).segments() == old(
                self,
            ).segments() && final(self).food_spec() == old(self).food_spec() && final(self).state_spec() == old(self).state_spec(),
            old(self).positions()[0] == old(self).food_spec() ==> {
                &&& final(self).segments().len() == old(self).segments().len() + GROWTH_PER_APPLE
                &&& (forall|i: int|
                    0 <= i < old(self).segments().len() ==> final(self).segments()[i] == old(
                        self,
                    ).segments()[i])
                &&& (forall|i: int|
                    old(self).segments().len() <= i < final(self).segments().len() ==> final(self).segments()[i] == (SnakeSegment {
                        pos: old(self).segments()[old(self).segments().len() - 1].pos,
                        dir: IVec2 { x: 0i32, y: 0i32 },
                    }))
                &&& (covers_board(final(self).positions()) ==> final(self).food_spec() == old(
                    self,
                ).food_spec() && final(self).state_spec() == State::GameOver)
                &&& (!covers_board(final(self).positions()) ==> !final(self).positions().contains(
                    final(self).food_spec(),
                ) && final(self).state_spec() == old(self).state_spec())
            },
    {
        let head = self.segs[0].pos;
        if !(head.x == self.food.x && head.y == self.food.y) {
            return;
        }

        // park the new segments on the tail
        let tail_pos = self.segs[self.segs.len() - 1].pos;
        let mut k: usize = 0;
        while k < GROWTH_PER_APPLE
            invariant
                k <= GROWTH_PER_APPLE,
                self.segs@.len() == old(self).segments().len() + k,
                forall|i: int|
                    0 <= i < old(self).segments().len() ==> self.segs@[i] == old(
                        self,
                    ).segments()[i],
                forall|i: int|
                    old(self).segments().len() <= i < self.segs@.len() ==> self.segs@[i] == (
                    SnakeSegment { pos: tail_pos, dir: IVec2 { x: 0i32, y: 0i32 } }),
                tail_pos == old(self).segments()[old(self).segments().len() - 1].pos,
                self.ticks == old(self).ticks_spec(),
                self.state == old(self).state_spec(),
                self.food == old(self).food_spec(),
                self.rng == old(self).rng,
                self.output@ == old(self).output_view(),
                self.palette@ == old(self).palette_view(),
            decreases GROWTH_PER_APPLE - k,
        {
            self.segs.push(SnakeSegment::new(tail_pos));
            k += 1;
        }

        // the stream is seeded lazily, from the tick count at first use
        if self.rng.is_none() {
            self.rng = Some(seed_rng(self.ticks));
        }

        let free = free_tiles(&self.segs);
        proof {
            assert(self.positions().len() == self.segs@.len());
            assert(forall|i: int|
                0 <= i < self.segs@.len() ==> self.positions()[i] == (
                #[trigger] self.segs@[i]).pos);
        }
        if free.len() > 0 {
            let mut idx: i32 = 0;
            match &mut self.rng {
                Some(r) => {
                    idx = rng_below(r, free.len() as i32);
                },
                None => {
                    proof {
                        assert(false);
                    }
                },
            }
            self.food = free[idx as usize];
            proof {
                assert(!covers_board(self.positions())) by {
                    assert(free@[0].in_board() && !self.positions().contains(free@[0]));
                }
            }
        } else {
            // no tile can take the apple: the session cannot continue
            self.state = State::GameOver;
            proof {
                assert(covers_board(self.positions())) by {
                    assert forall|t: TilePos| t.in_board() implies self.positions().contains(
                        t,
                    ) by {
                        if !(exists|i: int|
                            0 <= i < self.segs@.len() && (#[trigger] self.segs@[i]).pos == t) {
                            assert(free@.contains(t));
                        } else {
                            let i = choose|i: int|
                                0 <= i < self.segs@.len() && (#[trigger] self.segs@[i]).pos == t;
                            assert(self.positions()[i] == t);
                        }
                    }
                }
            }
        }
    }

    /// Re-aims every trailing segment at the segment ahead of it, so that
    /// the next movement step shifts the whole chain.
    pub fn update_body_dir(&mut self)
        requires
            1 <= old(self).segments().len(),
            forall|i: int|
                0 <= i < old(self).segments().len() ==> (#[trigger] old(
                    self,
                ).segments()[i]).pos.in_board(),
        ensures
            final(self).ticks_spec() == old(self).ticks_spec(),
            final(self).state_spec() == old(self).state_spec(),
            final(self).food_spec() == old(self).food_spec(),
            final(self).output_view() == old(self).output_view(),
            final(self).palette_view() == old(self).palette_view(),
            final(self).segments().len() == old(self).segments().len(),
            final(self).segments()[0] == old(self).segments()[0],
            forall|i: int|
                1 <= i < old(self).segments().len() ==> (#[trigger] final(self).segments()[i]).pos
                    == old(self).segments()[i].pos,
            chain_ok(final(self).segments()),
            stacked(old(self).segments()) ==> stacked(final(self).segments()),
    {
        let n = self.segs.len();
        let mut k: usize = 1;
        while k < n
            invariant
                n == self.segs@.len(),
                n == old(self).segments().len(),
                1 <= k <= n,
                self.segs@[0] == old(self).segments()[0],
                forall|i: int|
                    0 <= i < n ==> (#[trigger] old(self).segments()[i]).pos.in_board(),
                forall|i: int|
                    0 <= i < n ==> (#[trigger] self.segs@[i]).pos == old(self).segments()[i].pos,
                forall|i: int| 1 <= i < k ==> points_to(#[trigger] self.segs@[i], self.segs@[i - 1]),
                forall|i: int| k <= i < n ==> self.segs@[i] == old(self).segments()[i],
                stacked(old(self).segments()) ==> forall|i: int|
                    0 <= i < k ==> (#[trigger] self.segs@[i]).dir.is_zero() && self.segs@[i].pos
                        == self.segs@[0].pos,
                self.ticks == old(self).ticks_spec(),
                self.state == old(self).state_spec(),
                self.food == old(self).food_spec(),
                self.output@ == old(self).output_view(),
                self.palette@ == old(self).palette_view(),
            decreases n - k,
        {
            let ahead = self.segs[k - 1].pos;
            let seg = self.segs[k];
            let aimed = SnakeSegment {
                pos: seg.pos,
                dir: IVec2::new(ahead.x - seg.pos.x, ahead.y - seg.pos.y),
            };
            self.segs[k] = aimed;
            proof {
                if stacked(old(self).segments()) {
                    assert(old(self).segments()[k as int].pos == old(self).segments()[0].pos);
                    assert(old(self).segments()[k as int - 1].pos == old(self).segments()[0].pos);
                }
            }
            k += 1;
        }
    }

    /// Paints the board background over the whole tile-grid area.
    pub fn draw_background(&mut self)
        requires
            old(self).output_view().len() == OUTPUT_BUFFER_SIZE,
        ensures
            final(self).ticks_spec() == old(self).ticks_spec(),
            final(self).state_spec() == old(self).state_spec(),
            final(self).food_spec() == old(self).food_spec(),
            final(self).segments() == old(self).segments(),
            final(self).palette_view() == old(self).palette_view(),
            final(self).output_view().len() == OUTPUT_BUFFER_SIZE,
            forall|x: int, y: int|
                0 <= x < SCREEN_WIDTH && 0 <= y < SCREEN_HEIGHT ==> #[trigger] final(self).out_pixel(x, y) == (if in_map(x, y) {
                    MAP_COLOR
                } else {
                    old(self).out_pixel(x, y)
                }),
    {
        pixel::draw_rect(
            &mut self.output,
            IVec2::new(MAP_POS_X, MAP_POS_Y),
            IVec2::new(MAP_WIDTH * TILE_SIZE, MAP_HEIGHT * TILE_SIZE),
            MAP_COLOR,
        );
        proof {
            assert forall|x: int, y: int|
                0 <= x < SCREEN_WIDTH && 0 <= y < SCREEN_HEIGHT implies #[trigger] self.out_pixel(
                x,
                y,
            ) == (if in_map(x, y) {
                MAP_COLOR
            } else {
                old(self).out_pixel(x, y)
            }) by {
                assert(self.output.pixel(x, y) == self.out_pixel(x, y));
                assert(old(self).output.pixel(x, y) == old(self).out_pixel(x, y));
            }
        }
    }

    /// Draws the apple: a filled disc in its tile, then a 2×2 stem near the
    /// tile's bottom edge on top of it.
    pub fn draw_apples(&mut self)
        requires
            old(self).output_view().len() == OUTPUT_BUFFER_SIZE,
            old(self).food_spec().in_board(),
        ensures
            final(self).ticks_spec() == old(self).ticks_spec(),
            final(self).state_spec() == old(self).state_spec(),
            final(self).food_spec() == old(self).food_spec(),
            final(self).segments() == old(self).segments(),
            final(self).palette_view() == old(self).palette_view(),
            final(self).output_view().len() == OUTPUT_BUFFER_SIZE,
            forall|x: int, y: int|
                0 <= x < SCREEN_WIDTH && 0 <= y < SCREEN_HEIGHT ==> #[trigger] final(self).out_pixel(x, y) == (if in_stem(old(self).food_spec(), x, y) {
                    APPLE_STEM_COLOR
                } else if in_apple(old(self).food_spec(), x, y) {
                    APPLE_COLOR
                } else {
                    old(self).out_pixel(x, y)
                }),
    {
        let p = self.food.to_screen_pos();
        pixel::draw_circle(&mut self.output, IVec2::new(p.x + 5, p.y + 5), 4, APPLE_COLOR);
        let ghost mid = *self;
        pixel::draw_rect(
            &mut self.output,
            IVec2::new(p.x + 4, p.y + 8),
            IVec2::new(2, 2),
            APPLE_STEM_COLOR,
        );
        proof {
            assert forall|x: int, y: int|
                0 <= x < SCREEN_WIDTH && 0 <= y < SCREEN_HEIGHT implies #[trigger] self.out_pixel(
                x,
                y,
            ) == (if in_stem(old(self).food_spec(), x, y) {
                APPLE_STEM_COLOR
            } else if in_apple(old(self).food_spec(), x, y) {
                APPLE_COLOR
            } else {
                old(self).out_pixel(x, y)
            }) by {
                assert(self.output.pixel(x, y) == self.out_pixel(x, y));
                assert(mid.output.pixel(x, y) == mid.out_pixel(x, y));
                assert(old(self).output.pixel(x, y) == old(self).out_pixel(x, y));
            }
        }
    }

    /// Draws every snake tile, in the live color while running and the
    /// dead color once the game is over.
    pub fn draw_snake(&mut self)
        requires
            old(self).output_view().len() == OUTPUT_BUFFER_SIZE,
            forall|i: int|
                0 <= i < old(self).segments().len() ==> (#[trigger] old(
                    self,
                ).segments()[i]).pos.in_board(),
        ensures
            final(self).ticks_spec() == old(self).ticks_spec(),
            final(self).state_spec() == old(self).state_spec(),
            final(self).food_spec() == old(self).food_spec(),
            final(self).segments() == old(self).segments(),
            final(self).palette_view() == old(self).palette_view(),
            final(self).output_view().len() == OUTPUT_BUFFER_SIZE,
            forall|x: int, y: int|
                0 <= x < SCREEN_WIDTH && 0 <= y < SCREEN_HEIGHT ==> #[trigger] final(self).out_pixel(x, y) == (if on_snake(old(self).positions(), x, y) {
                    worm_color(old(self).state_spec())
                } else {
                    old(self).out_pixel(x, y)
                }),
    {
        proof {
            assert(old(self).positions().len() == old(self).segments().len());
            assert(forall|i: int|
                0 <= i < old(self).segments().len() ==> old(self).positions()[i] == (
                #[trigger] old(self).segments()[i]).pos);
        }
        let color = if self.alive() {
            WORM_COLOR
        } else {
            DEAD_WORM_COLOR
        };
        let n = self.segs.len();
        let mut k: usize = 0;
        while k < n
            invariant
                n == self.segs@.len(),
                k <= n,
                self.segs@ == old(self).segments(),
                forall|i: int|
                    0 <= i < n ==> (#[trigger] old(self).segments()[i]).pos.in_board(),
                forall|i: int|
                    0 <= i < n ==> old(self).positions()[i] == (
                    #[trigger] old(self).segments()[i]).pos,
                old(self).positions().len() == n,
                color == worm_color(old(self).state_spec()),
                self.output@.len() == OUTPUT_BUFFER_SIZE,
                forall|x: int, y: int|
                    0 <= x < SCREEN_WIDTH && 0 <= y < SCREEN_HEIGHT ==> #[trigger] self.out_pixel(
                        x,
                        y,
                    ) == (if (exists|i: int|
                        0 <= i < k && in_tile(old(self).positions()[i], x, y)) {
                        color
                    } else {
                        old(self).out_pixel(x, y)
                    }),
                self.ticks == old(self).ticks_spec(),
                self.state == old(self).state_spec(),
                self.food == old(self).food_spec(),
                self.palette@ == old(self).palette_view(),
            decreases n - k,
        {
            let t = self.segs[k].pos;
            let ghost mid = *self;
            t.draw_filled(&mut self.output, color);
            proof {
                assert forall|x: int, y: int|
                    0 <= x < SCREEN_WIDTH && 0 <= y < SCREEN_HEIGHT implies #[trigger] self.out_pixel(
                    x,
                    y,
                ) == (if (exists|i: int|
                    0 <= i < k + 1 && in_tile(old(self).positions()[i], x, y)) {
                    color
                } else {
                    old(self).out_pixel(x, y)
                }) by {
                    assert(self.output.pixel(x, y) == self.out_pixel(x, y));
                    assert(mid.output.pixel(x, y) == mid.out_pixel(x, y));
                    assert(t == old(self).positions()[k as int]);
                    if in_tile(old(self).positions()[k as int], x, y) {
                        assert(exists|i: int|
                            0 <= i < k + 1 && in_tile(old(self).positions()[i], x, y));
                    }
                }
            }
            k += 1;
        }
    }

    /// Runs one frame of the session: advances the tick, steers the head
    /// from the combined inputs, and on step ticks moves the snake,
    /// handles death and eating, and redraws the whole frame.
    pub fn update(&mut self, p1: Input, p2: Input)
        requires
            old(self).wf(),
            old(self).ticks_spec() < u64::MAX,
        ensures
            final(self).wf(),
            update_rel(*old(self), *final(self), p1, p2),
    {
        let ghost pre = *old(self);
        let ghost d = if pre.state_spec() == State::Running {
            next_dir(pre.head_dir(), Input::union_spec(p1, p2).dir_spec())
        } else {
            pre.head_dir()
        };
        let ghost new_head = tile_plus(pre.positions()[0], d);
        proof {
            lemma_positions_index(pre);
        }
        self.tick();
        if self.alive() {
            self.update_head_dir(p1, p2);
        }
        let ghost s2 = *self;
        proof {
            lemma_positions_index(s2);
            assert(s2.positions() =~= pre.positions());
            assert(s2.head_dir() == d);
            assert(s2.wf()) by {
                if s2.state_spec() == State::Running {
                    assert forall|i: int| 1 <= i < s2.segments().len() implies points_to(
                        #[trigger] s2.segments()[i],
                        s2.segments()[i - 1],
                    ) by {
                        assert(points_to(pre.segments()[i], pre.segments()[i - 1]));
                        assert(s2.segments()[i] == pre.segments()[i]);
                        assert(s2.segments()[i - 1].pos == pre.segments()[i - 1].pos);
                    }
                    if s2.head_dir().is_zero() {
                        assert(stacked(pre.segments()));
                        assert forall|i: int| 0 <= i < s2.segments().len() implies (
                        #[trigger] s2.segments()[i]).dir.is_zero() && s2.segments()[i].pos
                            == s2.segments()[0].pos by {
                            assert(pre.segments()[i].dir.is_zero());
                            assert(pre.segments()[i].pos == pre.segments()[0].pos);
                            if i >= 1 {
                                assert(s2.segments()[i] == pre.segments()[i]);
                            }
                        }
                    }
                }
            }
        }
        if self.on_step() {
            if self.alive() {
                self.move_head();
            }
            let ghost s3 = *self;
            if self.alive() {
                proof {
                    // the chain at s3 still shifts onto the board
                    assert forall|i: int| 1 <= i < s3.segments().len() implies tile_plus(
                        (#[trigger] s3.segments()[i]).pos,
                        s3.segments()[i].dir,
                    ).in_board() by {
                        assert(s3.segments()[i] == s2.segments()[i]);
                        assert(points_to(s2.segments()[i], s2.segments()[i - 1]));
                        assert(s2.segments()[i - 1].pos.in_board());
                        assert(tile_plus(s3.segments()[i].pos, s3.segments()[i].dir) == s2.segments()[i
                            - 1].pos);
                    }
                }
                self.move_body();
            }
            let ghost s4 = *self;
            proof {
                lemma_positions_index(s4);
                if s2.state_spec() == State::Running && !d.is_zero() && !(!new_head.in_board()
                    || hits_body(pre.positions(), new_head)) {
                    assert(s4.positions() =~= shifted(pre.positions(), new_head)) by {
                        assert(s4.positions().len() == pre.positions().len());
                        assert(s4.positions()[0] == new_head);
                        assert forall|i: int| 1 <= i < s4.positions().len() implies s4.positions()[i]
                            == shifted(pre.positions(), new_head)[i] by {
                            assert(s4.segments()[i] == (SnakeSegment {
                                pos: tile_plus(s3.segments()[i].pos, s3.segments()[i].dir),
                                dir: s3.segments()[i].dir,
                            }));
                            assert(s3.segments()[i] == s2.segments()[i]);
                            assert(points_to(s2.segments()[i], s2.segments()[i - 1]));
                            assert(tile_plus(s3.segments()[i].pos, s3.segments()[i].dir)
                                == s2.segments()[i - 1].pos);
                            assert(s2.segments()[i - 1].pos == pre.positions()[i - 1]);
                        }
                    }
                }
            }
            if self.alive() {
                proof {
                    // a running snake is still on the board after the move
                    assert forall|i: int| 0 <= i < s4.segments().len() implies (
                    #[trigger] s4.segments()[i]).pos.in_board() by {
                        if d.is_zero() {
                            assert(stacked(s2.segments()));
                            assert(s2.segments()[i].dir.is_zero());
                            assert(s2.segments()[i].pos.in_board());
                        } else {
                            assert(new_head.in_board());
                            if i >= 1 {
                                assert(s4.positions()[i] == pre.positions()[i - 1]);
                                assert(pre.segments()[i - 1].pos.in_board());
                            }
                        }
                    }
                }
                self.eat_apples();
            }
            let ghost s5 = *self;
            if self.alive() {
                proof {
                    lemma_positions_index(s5);
                    assert forall|i: int| 0 <= i < s5.segments().len() implies (
                    #[trigger] s5.segments()[i]).pos.in_board() by {
                        if s5.segments() == s4.segments() {
                            assert(s4.segments()[i].pos.in_board());
                        } else {
                            if i < s4.segments().len() {
                                assert(s5.segments()[i] == s4.segments()[i]);
                                assert(s4.segments()[i].pos.in_board());
                            } else {
                                assert(s5.segments()[i].pos == s4.segments()[s4.segments().len()
                                    - 1].pos);
                                assert(s4.segments()[s4.segments().len() - 1].pos.in_board());
                            }
                        }
                    }
                }
                self.update_body_dir();
            }
            let ghost s6 = *self;
            proof {
                lemma_positions_index(s5);
                lemma_positions_index(s6);
                assert(s6.positions() =~= s5.positions());
                if pre.state_spec() != State::Running {
                    assert(s6.positions() =~= pre.positions());
                } else if d.is_zero() {
                    // parked: everything stays, the chain is re-aimed in place
                    assert(s4.positions() =~= pre.positions());
                    assert(s5.positions() == s4.positions());
                    assert(s6.positions() =~= pre.positions());
                    assert(stacked(s5.segments()));
                    assert(s6.state_spec() == State::Running && s6.head_dir().is_zero() ==> stacked(
                        s6.segments(),
                    ));
                } else if !new_head.in_board() || hits_body(pre.positions(), new_head) {
                    // fatal move: the state flips, nothing moves
                    assert(s3.state_spec() == State::GameOver);
                    assert(s6.positions() =~= pre.positions());
                } else {
                    // the chain advances; eating grows it and moves the apple
                    let moved_plain = shifted(pre.positions(), new_head);
                    assert(s4.positions() =~= moved_plain);
                    if new_head == pre.food_spec() {
                        let moved = grown(moved_plain, GROWTH_PER_APPLE as int);
                        assert(s5.positions() =~= moved) by {
                            assert(s5.positions().len() == moved.len());
                            assert forall|i: int| 0 <= i < s5.positions().len() implies s5.positions()[i]
                                == moved[i] by {
                                if i < s4.segments().len() {
                                    assert(s5.segments()[i] == s4.segments()[i]);
                                } else {
                                    assert(s5.segments()[i] == (SnakeSegment {
                                        pos: s4.segments()[s4.segments().len() - 1].pos,
                                        dir: IVec2 { x: 0i32, y: 0i32 },
                                    }));
                                    assert(s4.positions()[s4.positions().len() - 1] == moved_plain.last());
                                }
                            }
                        }
                        assert(s6.positions() =~= moved);
                    } else {
                        // the apple is elsewhere: nothing grows
                        assert(s4.positions()[0] == new_head);
                        assert(s5.positions() == s4.positions());
                        assert(s6.positions() =~= moved_plain);
                        assert(!s6.positions().contains(s6.food_spec())) by {
                            if s6.positions().contains(s6.food_spec()) {
                                let j = choose|j: int|
                                    0 <= j < s6.positions().len() && s6.positions()[j]
                                        == s6.food_spec();
                                if j == 0 {
                                    assert(new_head == pre.food_spec());
                                } else {
                                    assert(moved_plain[j] == pre.positions()[j - 1]);
                                    assert(pre.positions().contains(pre.food_spec()));
                                }
                            }
                        }
                    }
                }
                assert(s6.wf());
                assert(s6.ticks_spec() == pre.ticks_spec() + 1);
            }
            self.draw_background();
            let ghost sa = *self;
            self.draw_apples();
            let ghost sb = *self;
            self.draw_snake();
            proof {
                assert(self.positions() =~= s6.positions());
                assert forall|x: int, y: int|
                    0 <= x < SCREEN_WIDTH && 0 <= y < SCREEN_HEIGHT implies #[trigger] self.out_pixel(
                    x,
                    y,
                ) == rendered_pixel(
                    s6.positions(),
                    self.food_spec(),
                    self.state_spec(),
                    pre.out_pixel(x, y),
                    x,
                    y,
                ) by {
                    assert(sa.out_pixel(x, y) == (if in_map(x, y) {
                        MAP_COLOR
                    } else {
                        s6.out_pixel(x, y)
                    }));
                    assert(sb.out_pixel(x, y) == (if in_stem(s6.food_spec(), x, y) {
                        APPLE_STEM_COLOR
                    } else if in_apple(s6.food_spec(), x, y) {
                        APPLE_COLOR
                    } else {
                        sa.out_pixel(x, y)
                    }));
                    assert(s6.out_pixel(x, y) == pre.out_pixel(x, y));
                    if on_snake(s6.positions(), x, y) {
                        assert(self.out_pixel(x, y) == worm_color(s6.state_spec()));
                    }
                }
            }
        }
    }
}

impl SnakeGame {
    /// How many updates have run.
    pub fn ticks(&self) -> (t: u64)
        ensures
            t == self.ticks_spec(),
    {
        self.ticks
    }

    /// Whether the simulation still advances.
    pub fn state(&self) -> (st: State)
        ensures
            st == self.state_spec(),
    {
        self.state
    }

    /// The direction the head will move on the next step.
    pub fn direction(&self) -> (d: IVec2)
        requires
            1 <= self.segments().len(),
        ensures
            d == self.head_dir(),
    {
        self.segs[0].dir
    }

    /// The head's tile.
    pub fn head_pos(&self) -> (p: TilePos)
        requires
            1 <= self.segments().len(),
        ensures
            p == self.positions()[0],
    {
        proof {
            lemma_positions_index(*self);
        }
        self.segs[0].pos
    }

    /// How many segments the snake has.
    pub fn segment_count(&self) -> (n: usize)
        ensures
            n == self.positions().len(),
    {
        self.segs.len()
    }

    /// The tile of the segment at index `i`, head first.
    pub fn segment_pos(&self, i: usize) -> (p: TilePos)
        requires
            i < self.segments().len(),
        ensures
            p == self.positions()[i as int],
    {
        proof {
            lemma_positions_index(*self);
        }
        self.segs[i].pos
    }

    /// The apple's tile.
    pub fn food_pos(&self) -> (p: TilePos)
        ensures
            p == self.food_spec(),
    {
        self.food
    }

    /// The screen buffer, for the host to read after an update.
    pub fn output(&self) -> (o: &OutputBuffer)
        ensures
            o@ == self.output_view(),
    {
        &self.output
    }

    /// The palette, for the host to read after an update.
    pub fn palette(&self) -> (p: &PaletteBuffer)
        ensures
            p@ == self.palette_view(),
    {
        &self.palette
    }
}

/// The index view of a snake's tiles: each occupied tile is the matching
/// segment's position.
proof fn lemma_positions_index(g: SnakeGame)
    ensures
        g.positions().len() == g.segments().len(),
        forall|i: int|
            0 <= i < g.segments().len() ==> g.positions()[i] == (#[trigger] g.segments()[i]).pos,
{
}

/// Once the game is over it stays over: a later update moves nothing and
/// keeps the apple in place, though the frame is still redrawn.
pub proof fn lemma_game_over_is_terminal(pre: SnakeGame, post: SnakeGame, p1: Input, p2: Input)
    requires
        update_rel(pre, post, p1, p2),
        pre.state_spec() == State::GameOver,
    ensures
        post.state_spec() == State::GameOver,
        post.positions() == pre.positions(),
        post.food_spec() == pre.food_spec(),
{
}

/// A moving snake never reverses in place: whatever is pressed, the
/// direction after an update is not the exact opposite of the direction
/// before it.
pub proof fn lemma_no_instant_reversal(pre: SnakeGame, post: SnakeGame, p1: Input, p2: Input)
    requires
        update_rel(pre, post, p1, p2),
        pre.state_spec() == State::Running,
        !pre.head_dir().is_zero(),
    ensures
        !is_opposite(post.head_dir(), pre.head_dir()),
{
}

/// The apple never lies on the snake while the game runs: relocation
/// samples only tiles the snake does not occupy. (In the unwinnable state
/// where the snake covers every board tile, the session ends instead.)
pub proof fn lemma_food_never_on_snake(g: SnakeGame)
    requires
        g.wf(),
        g.state_spec() == State::Running,
    ensures
        !g.positions().contains(g.food_spec()),
{
}

/// The snake never leaves the board: every occupied tile of a well-formed
/// session lies within it.
pub proof fn lemma_snake_stays_on_board(g: SnakeGame)
    requires
        g.wf(),
    ensures
        forall|i: int| 0 <= i < g.positions().len() ==> (#[trigger] g.positions()[i]).in_board(),
{
    lemma_positions_index(g);
}

/// On a surviving movement step without food, the head advances one tile
/// in its direction and every trailing segment follows onto the tile of
/// the one ahead of it, with no growth.
pub proof fn lemma_body_follows_head(pre: SnakeGame, post: SnakeGame, p1: Input, p2: Input)
    requires
        update_rel(pre, post, p1, p2),
        pre.state_spec() == State::Running,
        post.state_spec() == State::Running,
        (pre.ticks_spec() + 1) % (TICKS_PER_STEP as int) == 0,
        !post.head_dir().is_zero(),
        post.positions()[0] != pre.positions()[0],
    ensures
        post.positions().len() >= pre.positions().len(),
        post.positions()[0] == tile_plus(pre.positions()[0], post.head_dir()),
        forall|i: int|
            1 <= i < pre.positions().len() ==> post.positions()[i] == pre.positions()[i - 1],
{
}

impl Default for SnakeGame {
    /// A fresh session: the palette loaded, the screen cleared to the
    /// border color, a six-segment snake parked at the board's center, the
    /// apple at tile (2, 2), and the tick counter at zero.
    fn default() -> (g: SnakeGame)
        ensures
            g.wf(),
            g.ticks_spec() == 0,
            g.state_spec() == State::Running,
            g.segments().len() == 6,
            forall|i: int|
                0 <= i < 6 ==> #[trigger] g.segments()[i] == (SnakeSegment {
                    pos: TilePos { x: 12i32, y: 10i32 },
                    dir: IVec2 { x: 0i32, y: 0i32 },
                }),
            g.food_spec() == (TilePos { x: 2i32, y: 2i32 }),
            forall|i: int|
                0 <= i < 20 ==> #[trigger] g.palette_view()[i] == rgb_color(palette_rgbs()[i]),
            forall|i: int|
                20 <= i < PALETTE_COLORS ==> #[trigger] g.palette_view()[i] == (Color(0, 0)),
            forall|x: int, y: int|
                0 <= x < SCREEN_WIDTH && 0 <= y < SCREEN_HEIGHT ==> #[trigger] g.out_pixel(x, y)
                    == BORDER_COLOR,
    {
        let mut palette = PaletteBuffer::default();
        palette.set(0, Color::from_rgb(0xffffe1));
        palette.set(1, Color::from_rgb(0xffd8a9));
        palette.set(2, Color::from_rgb(0xffb366));
        palette.set(3, Color::from_rgb(0xff5b4f));
        palette.set(4, Color::from_rgb(0xf2af92));
        palette.set(5, Color::from_rgb(0xf39d91));
        palette.set(6, Color::from_rgb(0xd38e84));
        palette.set(7, Color::from_rgb(0xc37289));
        palette.set(8, Color::from_rgb(0xad82cf));
        palette.set(9, Color::from_rgb(0x8455a9));
        palette.set(10, Color::from_rgb(0x794d81));
        palette.set(11, Color::from_rgb(0x4a3778));
        palette.set(12, Color::from_rgb(0xa9548a));
        palette.set(13, Color::from_rgb(0x814d6e));
        palette.set(14, Color::from_rgb(0xc92e70));
        palette.set(15, Color::from_rgb(0x9e2081));
        palette.set(16, Color::from_rgb(0x7e9770));
        palette.set(17, Color::from_rgb(0x5d7668));
        palette.set(18, Color::from_rgb(0x235a63));
        palette.set(19, Color::from_rgb(0x533a44));

        let mut output = OutputBuffer::default();
        pixel::clear(&mut output, BORDER_COLOR);

        let start = TilePos::new(MAP_WIDTH / 2, MAP_HEIGHT / 2);
        let mut segs: Vec<SnakeSegment> = Vec::new();
        segs.push(SnakeSegment::new(start));
        segs.push(SnakeSegment::new(start));
        segs.push(SnakeSegment::new(start));
        segs.push(SnakeSegment::new(start));
        segs.push(SnakeSegment::new(start));
        segs.push(SnakeSegment::new(start));

        let g = SnakeGame {
            ticks: 0,
            state: State::Running,
            segs,
            food: TilePos::new(2, 2),
            rng: None,
            output,
            palette,
        };
        proof {
            assert(g.positions().len() == 6);
            assert(forall|i: int|
                0 <= i < 6 ==> g.positions()[i] == (#[trigger] g.segments()[i]).pos);
            assert(!g.positions().contains(g.food_spec())) by {
                assert(forall|i: int|
                    0 <= i < 6 ==> #[trigger] g.positions()[i] == (TilePos { x: 12i32, y: 10i32 }));
            }
            assert forall|x: int, y: int|
                0 <= x < SCREEN_WIDTH && 0 <= y < SCREEN_HEIGHT implies #[trigger] g.out_pixel(
                x,
                y,
            ) == BORDER_COLOR by {
                assert(g.output.pixel(x, y) == g.out_pixel(x, y));
            }
        }
        g
    }
}

/// True when screen pixel `(x, y)` lies inside the tile-grid area.
pub open spec fn in_map(x: int, y: int) -> bool {
    &&& MAP_POS_X <= x < MAP_POS_X + MAP_WIDTH * TILE_SIZE
    &&& MAP_POS_Y <= y < MAP_POS_Y + MAP_HEIGHT * TILE_SIZE
}

/// The screen pixel at the center of the apple's tile, which the apple's
/// disc is drawn around.
pub open spec fn apple_center(food: TilePos) -> IVec2 {
    IVec2 {
        x: (MAP_POS_X + food.x * TILE_SIZE + 5) as i32,
        y: (MAP_POS_Y + food.y * TILE_SIZE + 5) as i32,
    }
}

/// The top-left screen pixel of the apple's 2×2 stem.
pub open spec fn stem_pos(food: TilePos) -> IVec2 {
    IVec2 {
        x: (MAP_POS_X + food.x * TILE_SIZE + 4) as i32,
        y: (MAP_POS_Y + food.y * TILE_SIZE + 8) as i32,
    }
}

/// True when screen pixel `(x, y)` is part of the apple's disc.
pub open spec fn in_apple(food: TilePos, x: int, y: int) -> bool {
    in_circle(apple_center(food), 4, x, y)
}

/// True when screen pixel `(x, y)` is part of the apple's stem.
pub open spec fn in_stem(food: TilePos, x: int, y: int) -> bool {
    in_rect(stem_pos(food), IVec2 { x: 2i32, y: 2i32 }, x, y)
}

/// The color the snake's tiles are drawn in: distinct once the game is
/// over, so the death frame stays visible.
pub open spec fn worm_color(state: State) -> u8 {
    if state == State::GameOver {
        DEAD_WORM_COLOR
    } else {
        WORM_COLOR
    }
}

/// True when screen pixel `(x, y)` lies in some occupied tile.
pub open spec fn on_snake(positions: Seq<TilePos>, x: int, y: int) -> bool {
    exists|i: int| 0 <= i < positions.len() && in_tile(positions[i], x, y)
}

/// The snake's tiles after a movement step: the new head tile in front,
/// every trailing segment on the tile of the segment that was ahead of it,
/// the old tail tile dropped.
pub open spec fn shifted(positions: Seq<TilePos>, new_head: TilePos) -> Seq<TilePos> {
    seq![new_head] + positions.take(positions.len() - 1)
}

/// `positions` with `n` more copies of its last tile appended: the grown
/// chain, parked on the tail until it unstacks.
pub open spec fn grown(positions: Seq<TilePos>, n: int) -> Seq<TilePos> {
    positions + Seq::new(n as nat, |i: int| positions.last())
}

/// The color a screen pixel shows after one render pass over the given
/// simulation state: the snake covers the apple's stem, which covers the
/// apple's disc, which covers the board background; pixels outside all of
/// them keep their previous color (the border painted at setup).
pub open spec fn rendered_pixel(
    positions: Seq<TilePos>,
    food: TilePos,
    state: State,
    prev: u8,
    x: int,
    y: int,
) -> u8 {
    if on_snake(positions, x, y) {
        worm_color(state)
    } else if in_stem(food, x, y) {
        APPLE_STEM_COLOR
    } else if in_apple(food, x, y) {
        APPLE_COLOR
    } else if in_map(x, y) {
        MAP_COLOR
    } else {
        prev
    }
}

/// How one `update` call relates the session state before the call (`pre`)
/// to the state after it (`post`), given the two controllers' inputs.
///
/// The tick advances; while running, the steered direction is adopted
/// under the cardinal/no-reversal rule. On step ticks a running snake with
/// a nonzero direction moves: stepping off the board or into the body ends
/// the game without moving; landing on the apple grows the chain by
/// `GROWTH_PER_APPLE` tail copies and relocates the apple to a free tile
/// (with the session ending in the unwinnable case where no tile is
/// free). On step ticks the frame is redrawn from the new state — also
/// after death, so the death frame stays visible; off step ticks the
/// screen is untouched. The palette never changes after setup.
pub open spec fn update_rel(pre: SnakeGame, post: SnakeGame, p1: Input, p2: Input) -> bool {
    let t = pre.ticks_spec() + 1;
    let stepping = t % (TICKS_PER_STEP as int) == 0;
    let running = pre.state_spec() == State::Running;
    let d = if running {
        next_dir(pre.head_dir(), Input::union_spec(p1, p2).dir_spec())
    } else {
        pre.head_dir()
    };
    let new_head = tile_plus(pre.positions()[0], d);
    let moving = stepping && running && !d.is_zero();
    let dead = moving && (!new_head.in_board() || hits_body(pre.positions(), new_head));
    let eats = moving && !dead && new_head == pre.food_spec();
    let moved = if eats {
        grown(shifted(pre.positions(), new_head), GROWTH_PER_APPLE as int)
    } else {
        shifted(pre.positions(), new_head)
    };
    let saturated = eats && covers_board(moved);
    &&& post.ticks_spec() == t
    &&& post.head_dir() == d
    &&& post.palette_view() == pre.palette_view()
    &&& post.state_spec() == (if dead || saturated {
        State::GameOver
    } else {
        pre.state_spec()
    })
    &&& post.positions() == (if moving && !dead {
        moved
    } else {
        pre.positions()
    })
    &&& (eats && !saturated ==> post.food_spec().in_board() && !post.positions().contains(
        post.food_spec(),
    ))
    &&& (!(eats && !saturated) ==> post.food_spec() == pre.food_spec())
    &&& post.output_view().len() == pre.output_view().len()
    &&& (stepping ==> forall|x: int, y: int|
        0 <= x < SCREEN_WIDTH && 0 <= y < SCREEN_HEIGHT ==> #[trigger] post.out_pixel(x, y)
            == rendered_pixel(
            post.positions(),
            post.food_spec(),
            post.state_spec(),
            pre.out_pixel(x, y),
            x,
            y,
        ))
    &&& (!stepping ==> post.output_view() == pre.output_view())
}

/// Collects every board tile no snake segment stands on, scanning the
/// board column by column.
fn free_tiles(segs: &Vec<SnakeSegment>) -> (free: Vec<TilePos>)
    ensures
        free@.len() <= MAP_WIDTH * MAP_HEIGHT,
        forall|k: int| 0 <= k < free@.len() ==> (#[trigger] free@[k]).in_board(),
        forall|k: int|
            0 <= k < free@.len() ==> !(exists|i: int|
                0 <= i < segs@.len() && (#[trigger] segs@[i]).pos == #[trigger] free@[k]),
        forall|t: TilePos|
            (#[trigger] t.in_board()) && !(exists|i: int|
                0 <= i < segs@.len() && (#[trigger] segs@[i]).pos == t) ==> free@.contains(t),
{
    let mut free: Vec<TilePos> = Vec::new();
    let mut x: i32 = 0;
    while x < MAP_WIDTH
        invariant
            0 <= x <= MAP_WIDTH,
            free@.len() <= x * MAP_HEIGHT,
            forall|k: int| 0 <= k < free@.len() ==> (#[trigger] free@[k]).in_board(),
            forall|k: int|
                0 <= k < free@.len() ==> !(exists|i: int|
                    0 <= i < segs@.len() && (#[trigger] segs@[i]).pos == #[trigger] free@[k]),
            forall|t: TilePos|
                (#[trigger] t.in_board()) && t.x < x && !(exists|i: int|
                    0 <= i < segs@.len() && (#[trigger] segs@[i]).pos == t) ==> free@.contains(t),
        decreases MAP_WIDTH - x,
    {
        let mut y: i32 = 0;
        while y < MAP_HEIGHT
            invariant
                0 <= x < MAP_WIDTH,
                0 <= y <= MAP_HEIGHT,
                free@.len() <= x * MAP_HEIGHT + y,
                forall|k: int| 0 <= k < free@.len() ==> (#[trigger] free@[k]).in_board(),
                forall|k: int|
                    0 <= k < free@.len() ==> !(exists|i: int|
                        0 <= i < segs@.len() && (#[trigger] segs@[i]).pos == #[trigger] free@[k]),
                forall|t: TilePos|
                    (#[trigger] t.in_board()) && (t.x < x || (t.x == x && t.y < y)) && !(exists|
                        i: int,
                    |
                        0 <= i < segs@.len() && (#[trigger] segs@[i]).pos == t)
                        ==> free@.contains(t),
            decreases MAP_HEIGHT - y,
        {
            let t = TilePos::new(x, y);
            let ghost prev = free@;
            if !contains_pos_from(segs, 0, t) {
                free.push(t);
                proof {
                    assert(free@[free@.len() - 1] == t);
                    assert(free@.contains(t));
                }
            }
            proof {
                assert forall|t0: TilePos| prev.contains(t0) implies free@.contains(t0) by {
                    let k = choose|k: int| 0 <= k < prev.len() && prev[k] == t0;
                    assert(free@[k] == t0);
                }
            }
            y += 1;
        }
        x += 1;
    }
    free
}

/// True when any segment at index `from` or later stands on `p`.
fn contains_pos_from(segs: &Vec<SnakeSegment>, from: usize, p: TilePos) -> (r: bool)
    ensures
        r == exists|i: int| from <= i < segs@.len() && (#[trigger] segs@[i]).pos == p,
{
    let mut k = from;
    let mut found = false;
    while k < segs.len()
        invariant
            from <= k <= segs@.len() || (from > segs@.len() && k == from),
            found == exists|i: int| from <= i < k && (#[trigger] segs@[i]).pos == p,
        decreases segs@.len() - k,
    {
        if segs[k].pos.x == p.x && segs[k].pos.y == p.y {
            found = true;
        }
        k += 1;
    }
    found
}

} // verus!
