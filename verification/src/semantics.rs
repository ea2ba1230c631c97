//! The mathematical semantics of one engine iteration.
//!
//! Every operation is a function from a state view to a state view, or to
//! `None` where the program is malformed (stack overflow or underflow, an
//! indexed access past the end of memory, a key index past the keypad).
//! `step_spec` composes fetch, decode, timer bookkeeping and execution
//! into the meaning of one whole iteration; the executable engine is
//! proved to implement it exactly.

use vstd::prelude::*;

use crate::keyboard::{first_down_from, KeyState, NUM_KEYS};
use crate::op::{spec_decode, Op};
use crate::ram::MEMORY_SIZE;
use crate::stack::STACK_SIZE;
use crate::state::{blank_grid, StateV, DISPLAY_HEIGHT, DISPLAY_WIDTH};

verus! {

/// One countdown tick: decrement if nonzero, never below zero.
pub open spec fn dec(t: u8) -> u8 {
    if t > 0 {
        (t - 1) as u8
    } else {
        0
    }
}

/// Move the program counter past one instruction word.
pub open spec fn advance(s: StateV) -> StateV {
    StateV { pc: s.pc + 2, ..s }
}

/// The bookkeeping done at the head of every executing iteration: both
/// timers tick down, the draw flag is cleared, and the audio flag is
/// recomputed from the ticked sound timer.
pub open spec fn tick(s: StateV) -> StateV {
    StateV {
        delay_timer: dec(s.delay_timer),
        sound_timer: dec(s.sound_timer),
        should_draw: false,
        play_audio: dec(s.sound_timer) > 0,
        ..s
    }
}

/// The big-endian instruction word at the program counter.
pub open spec fn fetch(s: StateV) -> u16 {
    (s.mem[s.pc] * 256 + s.mem[s.pc + 1]) as u16
}

// --- the display and the draw operation ---

/// Whether bit `xx` (0 = leftmost pixel) of a sprite row byte is set.
pub open spec fn sprite_bit(row: u8, xx: int) -> bool {
    row & (0x80u8 >> (xx as u8)) != 0
}

/// The sprite row that lands on screen row `r` when drawing at `y0`.
pub open spec fn sprite_row_of(y0: int, r: int) -> int {
    (r - y0) % (DISPLAY_HEIGHT as int)
}

/// The sprite column that lands on screen column `c` when drawing at `x0`.
pub open spec fn sprite_col_of(x0: int, c: int) -> int {
    (c - x0) % (DISPLAY_WIDTH as int)
}

/// Whether screen cell (r, c) lies under some row of an n-row sprite
/// drawn at (x0, y0), with wraparound. Sprites are at most 15 rows and
/// exactly 8 columns, so each cell lies under at most one sprite pixel.
pub open spec fn covers(x0: int, y0: int, n: int, r: int, c: int) -> bool {
    &&& 0 <= r < DISPLAY_HEIGHT
    &&& 0 <= c < DISPLAY_WIDTH
    &&& sprite_row_of(y0, r) < n
    &&& sprite_col_of(x0, c) < 8
}

/// The display after XOR-drawing the n-row sprite read from `mem` at
/// address `i` onto `g` at position (x0, y0): every covered cell whose
/// sprite bit is set is flipped, every other cell keeps its value.
pub open spec fn draw_grid(
    g: Seq<Seq<u8>>,
    mem: Seq<u8>,
    i: int,
    x0: int,
    y0: int,
    n: int,
) -> Seq<Seq<u8>> {
    Seq::new(
        DISPLAY_HEIGHT as nat,
        |r: int|
            Seq::new(
                DISPLAY_WIDTH as nat,
                |c: int|
                    if covers(x0, y0, n, r, c) && sprite_bit(
                        mem[i + sprite_row_of(y0, r)],
                        sprite_col_of(x0, c),
                    ) {
                        g[r][c] ^ 1
                    } else {
                        g[r][c]
                    },
            ),
    )
}

/// Whether the draw erases some pixel: a set sprite bit lands on a cell
/// that already holds 1.
pub open spec fn draw_collision(
    g: Seq<Seq<u8>>,
    mem: Seq<u8>,
    i: int,
    x0: int,
    y0: int,
    n: int,
) -> bool {
    exists|yy: int, xx: int|
        0 <= yy < n && 0 <= xx < 8 && #[trigger] sprite_bit(mem[i + yy], xx) && g[(y0 + yy) % (
        DISPLAY_HEIGHT as int)][(x0 + xx) % (DISPLAY_WIDTH as int)] == 1
}

// --- partial draws, for reasoning about the drawing loops ---

/// `g` with cell (r, c) replaced by `v`.
pub open spec fn grid_update(g: Seq<Seq<u8>>, r: int, c: int, v: u8) -> Seq<Seq<u8>> {
    g.update(r, g[r].update(c, v))
}

/// Whether cell (r, c) lies under a sprite position already processed by
/// a draw that has finished `rows` full rows and `cols` cells of row
/// `rows` (when `rows < n`).
pub open spec fn covers_upto(
    x0: int,
    y0: int,
    n: int,
    rows: int,
    cols: int,
    r: int,
    c: int,
) -> bool {
    &&& 0 <= r < DISPLAY_HEIGHT
    &&& 0 <= c < DISPLAY_WIDTH
    &&& sprite_col_of(x0, c) < 8
    &&& (sprite_row_of(y0, r) < rows || (rows < n && sprite_row_of(y0, r) == rows
        && sprite_col_of(x0, c) < cols))
}

/// The display part-way through a draw: the processed sprite positions
/// applied, the rest untouched.
pub open spec fn draw_upto(
    g: Seq<Seq<u8>>,
    mem: Seq<u8>,
    i: int,
    x0: int,
    y0: int,
    n: int,
    rows: int,
    cols: int,
) -> Seq<Seq<u8>> {
    Seq::new(
        DISPLAY_HEIGHT as nat,
        |r: int|
            Seq::new(
                DISPLAY_WIDTH as nat,
                |c: int|
                    if covers_upto(x0, y0, n, rows, cols, r, c) && sprite_bit(
                        mem[i + sprite_row_of(y0, r)],
                        sprite_col_of(x0, c),
                    ) {
                        g[r][c] ^ 1
                    } else {
                        g[r][c]
                    },
            ),
    )
}

/// The collision bit part-way through a draw, over the original display.
pub open spec fn collision_upto(
    g: Seq<Seq<u8>>,
    mem: Seq<u8>,
    i: int,
    x0: int,
    y0: int,
    n: int,
    rows: int,
    cols: int,
) -> bool {
    exists|yy: int, xx: int|
        0 <= yy && 0 <= xx < 8 && (yy < rows || (rows < n && yy == rows && xx < cols))
            && #[trigger] sprite_bit(mem[i + yy], xx) && g[(y0 + yy) % (DISPLAY_HEIGHT as int)][(x0
            + xx) % (DISPLAY_WIDTH as int)] == 1
}

/// Offsetting by `base` and wrapping at `m` sends each offset below `m`
/// to exactly one position, and no other offset to that position.
proof fn lemma_wrap_target(base: int, off: int, m: int)
    requires
        0 < m,
        0 <= off < m,
    ensures
        0 <= (base + off) % m < m,
        ((base + off) % m - base) % m == off,
        forall|p: int|
            0 <= p < m && (#[trigger] ((p - base) % m)) == off ==> p == (base + off) % m,
{
    let t = (base + off) % m;
    vstd::arithmetic::div_mod::lemma_mod_bound(base + off, m);
    vstd::arithmetic::div_mod::lemma_fundamental_div_mod(base + off, m);
    let q = (base + off) / m;
    assert(t - base == m * (-q) + off) by {
        assert(m * (-q) == -(m * q)) by (nonlinear_arith);
    }
    vstd::arithmetic::div_mod::lemma_mod_multiples_vanish(-q, off, m);
    vstd::arithmetic::div_mod::lemma_small_mod(off as nat, m as nat);
    assert((t - base) % m == off);
    assert forall|p: int| 0 <= p < m && (#[trigger] ((p - base) % m)) == off implies p == t by {
        vstd::arithmetic::div_mod::lemma_fundamental_div_mod(p - base, m);
        vstd::arithmetic::div_mod::lemma_fundamental_div_mod(t - base, m);
        let qp = (p - base) / m;
        let qt = (t - base) / m;
        assert(p - t == m * qp - m * qt);
        assert(qp == qt) by (nonlinear_arith)
            requires
                p - t == m * qp - m * qt,
                -m < p - t < m,
                0 < m,
        ;
    }
}

/// Sprite position (yy, xx) of a draw at (x0, y0) lands on exactly one
/// screen cell, and no other sprite position lands there.
pub proof fn lemma_sprite_target(x0: int, y0: int, yy: int, xx: int)
    requires
        0 <= yy < DISPLAY_HEIGHT,
        0 <= xx < DISPLAY_WIDTH,
    ensures
        0 <= (y0 + yy) % (DISPLAY_HEIGHT as int) < DISPLAY_HEIGHT,
        0 <= (x0 + xx) % (DISPLAY_WIDTH as int) < DISPLAY_WIDTH,
        sprite_row_of(y0, (y0 + yy) % (DISPLAY_HEIGHT as int)) == yy,
        sprite_col_of(x0, (x0 + xx) % (DISPLAY_WIDTH as int)) == xx,
        forall|r: int|
            0 <= r < DISPLAY_HEIGHT && #[trigger] sprite_row_of(y0, r) == yy ==> r == (y0 + yy) % (
            DISPLAY_HEIGHT as int),
        forall|c: int|
            0 <= c < DISPLAY_WIDTH && #[trigger] sprite_col_of(x0, c) == xx ==> c == (x0 + xx) % (
            DISPLAY_WIDTH as int),
{
    lemma_wrap_target(y0, yy, DISPLAY_HEIGHT as int);
    lemma_wrap_target(x0, xx, DISPLAY_WIDTH as int);
}

/// Before any sprite position is processed the display and the collision
/// bit are untouched.
pub proof fn lemma_draw_upto_zero(
    g: Seq<Seq<u8>>,
    mem: Seq<u8>,
    i: int,
    x0: int,
    y0: int,
    n: int,
)
    requires
        g.len() == DISPLAY_HEIGHT,
        forall|r: int| 0 <= r < DISPLAY_HEIGHT ==> (#[trigger] g[r]).len() == DISPLAY_WIDTH,
    ensures
        draw_upto(g, mem, i, x0, y0, n, 0, 0) == g,
        !collision_upto(g, mem, i, x0, y0, n, 0, 0),
{
    assert(draw_upto(g, mem, i, x0, y0, n, 0, 0) =~~= g);
}

/// Finishing row `rows` is the same as standing at the start of row
/// `rows + 1`.
pub proof fn lemma_draw_upto_row_step(
    g: Seq<Seq<u8>>,
    mem: Seq<u8>,
    i: int,
    x0: int,
    y0: int,
    n: int,
    rows: int,
)
    requires
        0 <= rows < n,
    ensures
        draw_upto(g, mem, i, x0, y0, n, rows, 8) == draw_upto(g, mem, i, x0, y0, n, rows + 1, 0),
        collision_upto(g, mem, i, x0, y0, n, rows, 8) == collision_upto(
            g,
            mem,
            i,
            x0,
            y0,
            n,
            rows + 1,
            0,
        ),
{
    assert(draw_upto(g, mem, i, x0, y0, n, rows, 8) =~~= draw_upto(
        g,
        mem,
        i,
        x0,
        y0,
        n,
        rows + 1,
        0,
    ));
    if collision_upto(g, mem, i, x0, y0, n, rows, 8) {
        assert(collision_upto(g, mem, i, x0, y0, n, rows + 1, 0));
    }
    if collision_upto(g, mem, i, x0, y0, n, rows + 1, 0) {
        assert(collision_upto(g, mem, i, x0, y0, n, rows, 8));
    }
}

/// Processing all n rows yields exactly the draw semantics.
pub proof fn lemma_draw_upto_full(
    g: Seq<Seq<u8>>,
    mem: Seq<u8>,
    i: int,
    x0: int,
    y0: int,
    n: int,
)
    ensures
        draw_upto(g, mem, i, x0, y0, n, n, 0) == draw_grid(g, mem, i, x0, y0, n),
        collision_upto(g, mem, i, x0, y0, n, n, 0) == draw_collision(g, mem, i, x0, y0, n),
{
    assert(draw_upto(g, mem, i, x0, y0, n, n, 0) =~~= draw_grid(g, mem, i, x0, y0, n));
    if collision_upto(g, mem, i, x0, y0, n, n, 0) {
        let (yy, xx) = choose|yy: int, xx: int|
            0 <= yy && 0 <= xx < 8 && (yy < n || (n < n && yy == n && xx < 0))
                && #[trigger] sprite_bit(mem[i + yy], xx) && g[(y0 + yy) % (
            DISPLAY_HEIGHT as int)][(x0 + xx) % (DISPLAY_WIDTH as int)] == 1;
        assert(draw_collision(g, mem, i, x0, y0, n));
    }
    if draw_collision(g, mem, i, x0, y0, n) {
        let (yy, xx) = choose|yy: int, xx: int|
            0 <= yy < n && 0 <= xx < 8 && #[trigger] sprite_bit(mem[i + yy], xx) && g[(y0 + yy) % (
            DISPLAY_HEIGHT as int)][(x0 + xx) % (DISPLAY_WIDTH as int)] == 1;
        assert(collision_upto(g, mem, i, x0, y0, n, n, 0));
    }
}

/// Processing one more sprite position flips (or keeps) exactly its own
/// screen cell, and extends the collision bit by exactly that cell's
/// prior content.
pub proof fn lemma_draw_upto_cell_step(
    g: Seq<Seq<u8>>,
    mem: Seq<u8>,
    i: int,
    x0: int,
    y0: int,
    n: int,
    yy: int,
    xx: int,
)
    requires
        0 <= yy < n <= 15,
        0 <= xx < 8,
        0 <= x0,
        0 <= y0,
        g.len() == DISPLAY_HEIGHT,
        forall|r: int| 0 <= r < DISPLAY_HEIGHT ==> (#[trigger] g[r]).len() == DISPLAY_WIDTH,
    ensures
        ({
            let rt = (y0 + yy) % (DISPLAY_HEIGHT as int);
            let ct = (x0 + xx) % (DISPLAY_WIDTH as int);
            let before = draw_upto(g, mem, i, x0, y0, n, yy, xx);
            &&& 0 <= rt < DISPLAY_HEIGHT && 0 <= ct < DISPLAY_WIDTH
            &&& before[rt][ct] == g[rt][ct]
            &&& (sprite_bit(mem[i + yy], xx) ==> draw_upto(g, mem, i, x0, y0, n, yy, xx + 1)
                == grid_update(before, rt, ct, (g[rt][ct] ^ 1) as u8))
            &&& (!sprite_bit(mem[i + yy], xx) ==> draw_upto(g, mem, i, x0, y0, n, yy, xx + 1)
                == before)
            &&& collision_upto(g, mem, i, x0, y0, n, yy, xx + 1) == (collision_upto(
                g,
                mem,
                i,
                x0,
                y0,
                n,
                yy,
                xx,
            ) || (sprite_bit(mem[i + yy], xx) && g[rt][ct] == 1))
        }),
{
    let h = DISPLAY_HEIGHT as int;
    let w = DISPLAY_WIDTH as int;
    let rt = (y0 + yy) % h;
    let ct = (x0 + xx) % w;
    let before = draw_upto(g, mem, i, x0, y0, n, yy, xx);
    let after = draw_upto(g, mem, i, x0, y0, n, yy, xx + 1);
    lemma_sprite_target(x0, y0, yy, xx);
    assert(!covers_upto(x0, y0, n, yy, xx, rt, ct));
    assert(before[rt][ct] == g[rt][ct]);
    // The processed set grows by exactly the cell (rt, ct).
    assert forall|r: int, c: int| 0 <= r < h && 0 <= c < w implies #[trigger] covers_upto(
        x0,
        y0,
        n,
        yy,
        xx + 1,
        r,
        c,
    ) == (covers_upto(x0, y0, n, yy, xx, r, c) || (r == rt && c == ct)) by {}
    if sprite_bit(mem[i + yy], xx) {
        assert(after =~~= grid_update(before, rt, ct, (g[rt][ct] ^ 1) as u8));
    } else {
        assert(after =~~= before);
    }
    // The collision bit.
    if collision_upto(g, mem, i, x0, y0, n, yy, xx + 1) {
        let (py, px) = choose|py: int, px: int|
            0 <= py && 0 <= px < 8 && (py < yy || (yy < n && py == yy && px < xx + 1))
                && #[trigger] sprite_bit(mem[i + py], px) && g[(y0 + py) % h][(x0 + px) % w] == 1;
        if py == yy && px == xx {
            assert(sprite_bit(mem[i + yy], xx) && g[rt][ct] == 1);
        } else {
            assert(collision_upto(g, mem, i, x0, y0, n, yy, xx));
        }
    }
    if collision_upto(g, mem, i, x0, y0, n, yy, xx) {
        let (py, px) = choose|py: int, px: int|
            0 <= py && 0 <= px < 8 && (py < yy || (yy < n && py == yy && px < xx))
                && #[trigger] sprite_bit(mem[i + py], px) && g[(y0 + py) % h][(x0 + px) % w] == 1;
        assert(collision_upto(g, mem, i, x0, y0, n, yy, xx + 1));
    }
    if sprite_bit(mem[i + yy], xx) && g[rt][ct] == 1 {
        assert(collision_upto(g, mem, i, x0, y0, n, yy, xx + 1));
    }
}

// --- register block transfer ---

/// `mem` with registers 0..count copied in at address `addr`.
pub open spec fn write_regs(mem: Seq<u8>, regs: Seq<u8>, addr: int, count: int) -> Seq<u8>
    decreases count,
{
    if count <= 0 {
        mem
    } else {
        write_regs(mem, regs, addr, count - 1).update(addr + count - 1, regs[count - 1])
    }
}

/// `regs` with memory at address `addr` copied into registers 0..count.
pub open spec fn read_regs(regs: Seq<u8>, mem: Seq<u8>, addr: int, count: int) -> Seq<u8>
    decreases count,
{
    if count <= 0 {
        regs
    } else {
        read_regs(regs, mem, addr, count - 1).update(count - 1, mem[addr + count - 1])
    }
}

// --- the operations ---

/// 00E0: every pixel becomes 0, whatever it held.
pub open spec fn sem_clear_screen(s: StateV) -> StateV {
    StateV { grid: blank_grid(), ..s }
}

/// 00EE: the program counter is popped off the call stack. An empty
/// stack is a malformed program.
pub open spec fn sem_return(s: StateV) -> Option<StateV> {
    if s.stack.len() == 0 {
        None
    } else {
        Some(StateV { pc: s.stack.last() as int, stack: s.stack.drop_last(), ..s })
    }
}

/// 1nnn.
pub open spec fn sem_jump(s: StateV, nnn: u16) -> StateV {
    StateV { pc: nnn as int, ..s }
}

/// 2nnn: the already-advanced program counter is pushed. A full stack is
/// a malformed program.
pub open spec fn sem_call(s: StateV, nnn: u16) -> Option<StateV> {
    if s.stack.len() >= STACK_SIZE {
        None
    } else {
        Some(StateV { pc: nnn as int, stack: s.stack.push(s.pc as u16), ..s })
    }
}

/// 3xkk / 4xkk.
pub open spec fn sem_skip_imm(s: StateV, x: int, kk: u8, when_equal: bool) -> StateV {
    if (s.regs[x] == kk) == when_equal {
        advance(s)
    } else {
        s
    }
}

/// 5xy0 / 9xy0.
pub open spec fn sem_skip_reg(s: StateV, x: int, y: int, when_equal: bool) -> StateV {
    if (s.regs[x] == s.regs[y]) == when_equal {
        advance(s)
    } else {
        s
    }
}

/// 6xkk.
pub open spec fn sem_load_imm(s: StateV, x: int, kk: u8) -> StateV {
    StateV { regs: s.regs.update(x, kk), ..s }
}

/// 7xkk: wrapping add, the flag register untouched.
pub open spec fn sem_add_imm(s: StateV, x: int, kk: u8) -> StateV {
    StateV { regs: s.regs.update(x, ((s.regs[x] + kk) % 256) as u8), ..s }
}

/// 8xy0.
pub open spec fn sem_load_reg(s: StateV, x: int, y: int) -> StateV {
    StateV { regs: s.regs.update(x, s.regs[y]), ..s }
}

/// 8xy1.
pub open spec fn sem_or_reg(s: StateV, x: int, y: int) -> StateV {
    StateV { regs: s.regs.update(x, s.regs[x] | s.regs[y]), ..s }
}

/// 8xy2.
pub open spec fn sem_and_reg(s: StateV, x: int, y: int) -> StateV {
    StateV { regs: s.regs.update(x, s.regs[x] & s.regs[y]), ..s }
}

/// 8xy3.
pub open spec fn sem_xor_reg(s: StateV, x: int, y: int) -> StateV {
    StateV { regs: s.regs.update(x, s.regs[x] ^ s.regs[y]), ..s }
}

/// 8xy4: the flag register takes the carry first, then Vx takes the low
/// byte of the 16-bit sum (so with x = 15 the low byte wins).
pub open spec fn sem_add_reg(s: StateV, x: int, y: int) -> StateV {
    let sum = s.regs[x] + s.regs[y];
    let carry: u8 = if sum > 255 {
        1
    } else {
        0
    };
    StateV { regs: s.regs.update(15, carry).update(x, (sum % 256) as u8), ..s }
}

/// 8xy5: the flag register takes not-borrow first, then Vx takes the
/// wrapped difference of the old values.
pub open spec fn sem_sub_reg(s: StateV, x: int, y: int) -> StateV {
    let not_borrow: u8 = if s.regs[x] > s.regs[y] {
        1
    } else {
        0
    };
    let diff = ((s.regs[x] - s.regs[y]) % 256) as u8;
    StateV { regs: s.regs.update(15, not_borrow).update(x, diff), ..s }
}

/// 8xy6: the flag register takes the pre-shift low bit first, then Vx is
/// halved (reading the flag when x = 15, as the machine does).
pub open spec fn sem_shr_reg(s: StateV, x: int) -> StateV {
    let r1 = s.regs.update(15, s.regs[x] & 1);
    StateV { regs: r1.update(x, r1[x] >> 1), ..s }
}

/// 8xy7: like 8xy5 with the operands exchanged.
pub open spec fn sem_subn_reg(s: StateV, x: int, y: int) -> StateV {
    let not_borrow: u8 = if s.regs[y] > s.regs[x] {
        1
    } else {
        0
    };
    let diff = ((s.regs[y] - s.regs[x]) % 256) as u8;
    StateV { regs: s.regs.update(15, not_borrow).update(x, diff), ..s }
}

/// 8xyE: the flag register takes the pre-shift high bit first, then Vx
/// is doubled keeping the low byte.
pub open spec fn sem_shl_reg(s: StateV, x: int) -> StateV {
    let r1 = s.regs.update(15, (s.regs[x] & 0x80) >> 7);
    StateV { regs: r1.update(x, ((r1[x] * 2) % 256) as u8), ..s }
}

/// Annn.
pub open spec fn sem_load_addr(s: StateV, nnn: u16) -> StateV {
    StateV { i: nnn, ..s }
}

/// Bnnn.
pub open spec fn sem_jump_v0(s: StateV, nnn: u16) -> StateV {
    StateV { pc: nnn + s.regs[0], ..s }
}

/// Cxkk: Vx takes the random byte masked by kk.
pub open spec fn sem_random(s: StateV, x: int, kk: u8, rnd: u8) -> StateV {
    StateV { regs: s.regs.update(x, rnd & kk), ..s }
}

/// Dxyn: XOR-draw the sprite at the address register, set the flag
/// register to the collision bit, and mark the display dirty. A sprite
/// row read past the end of memory is a malformed program.
pub open spec fn sem_draw(s: StateV, x: int, y: int, n: int) -> Option<StateV> {
    if n > 0 && s.i + n > MEMORY_SIZE {
        None
    } else {
        let x0 = s.regs[x] as int;
        let y0 = s.regs[y] as int;
        let collision: u8 = if draw_collision(s.grid, s.mem, s.i as int, x0, y0, n) {
            1
        } else {
            0
        };
        Some(
            StateV {
                grid: draw_grid(s.grid, s.mem, s.i as int, x0, y0, n),
                regs: s.regs.update(15, collision),
                should_draw: true,
                ..s
            },
        )
    }
}

/// Ex9E / ExA1: skip when the key named by Vx is down (or up). A key
/// value past the keypad is a malformed program.
pub open spec fn sem_skip_key(s: StateV, x: int, keys: Seq<KeyState>, when_down: bool) -> Option<
    StateV,
> {
    if s.regs[x] >= NUM_KEYS {
        None
    } else if (keys[s.regs[x] as int] is Down) == when_down {
        Some(advance(s))
    } else {
        Some(s)
    }
}

/// Fx07.
pub open spec fn sem_read_delay(s: StateV, x: int) -> StateV {
    StateV { regs: s.regs.update(x, s.delay_timer), ..s }
}

/// Fx0A: enter the key-wait state targeting register x.
pub open spec fn sem_wait_key(s: StateV, x: int) -> StateV {
    StateV { waiting_for_key: true, key_register_index: x, ..s }
}

/// Fx15.
pub open spec fn sem_set_delay(s: StateV, x: int) -> StateV {
    StateV { delay_timer: s.regs[x], ..s }
}

/// Fx18: the audio flag is not recomputed here; it reflects the sound
/// timer as of the head of the iteration.
pub open spec fn sem_set_sound(s: StateV, x: int) -> StateV {
    StateV { sound_timer: s.regs[x], ..s }
}

/// Fx1E: the address register takes the wrapping 16-bit sum; the flag
/// register reports whether the sum exceeds 255 — the legacy low-byte
/// overflow quirk, not true 16-bit overflow.
pub open spec fn sem_add_addr(s: StateV, x: int) -> StateV {
    let sum = s.i + s.regs[x];
    let flag: u8 = if sum > 255 {
        1
    } else {
        0
    };
    StateV { i: (sum % 0x10000) as u16, regs: s.regs.update(15, flag), ..s }
}

/// Fx29: glyphs are 5 bytes each from address 0, so the glyph for digit
/// Vx starts at Vx * 5.
pub open spec fn sem_load_font(s: StateV, x: int) -> StateV {
    StateV { i: (s.regs[x] * 5) as u16, ..s }
}

/// Fx33: the decimal digits of Vx land at the address register and the
/// two bytes after it. Writing past the end of memory is a malformed
/// program.
pub open spec fn sem_store_bcd(s: StateV, x: int) -> Option<StateV> {
    if s.i + 2 >= MEMORY_SIZE {
        None
    } else {
        let vx = s.regs[x];
        let mem = s.mem.update(s.i as int, ((vx / 100) % 10) as u8).update(
            s.i + 1,
            ((vx / 10) % 10) as u8,
        ).update(s.i + 2, (vx % 10) as u8);
        Some(StateV { mem, ..s })
    }
}

/// Fx55: registers 0..=x land in memory at the address register.
/// Writing past the end of memory is a malformed program.
pub open spec fn sem_store_regs(s: StateV, x: int) -> Option<StateV> {
    if s.i + x >= MEMORY_SIZE {
        None
    } else {
        Some(StateV { mem: write_regs(s.mem, s.regs, s.i as int, x + 1), ..s })
    }
}

/// Fx65: memory at the address register lands in registers 0..=x.
/// Reading past the end of memory is a malformed program.
pub open spec fn sem_load_regs(s: StateV, x: int) -> Option<StateV> {
    if s.i + x >= MEMORY_SIZE {
        None
    } else {
        Some(StateV { regs: read_regs(s.regs, s.mem, s.i as int, x + 1), ..s })
    }
}

/// The meaning of one decoded operation on an already-ticked state.
pub open spec fn sem_op(s: StateV, op: Op, keys: Seq<KeyState>, rnd: u8) -> Option<StateV> {
    match op {
        Op::ClearScreen => Some(sem_clear_screen(s)),
        Op::Return => sem_return(s),
        Op::Jump(nnn) => Some(sem_jump(s, nnn)),
        Op::Call(nnn) => sem_call(s, nnn),
        Op::SkipEqImm(x, kk) => Some(sem_skip_imm(s, x as int, kk, true)),
        Op::SkipNeImm(x, kk) => Some(sem_skip_imm(s, x as int, kk, false)),
        Op::SkipEqReg(x, y) => Some(sem_skip_reg(s, x as int, y as int, true)),
        Op::LoadImm(x, kk) => Some(sem_load_imm(s, x as int, kk)),
        Op::AddImm(x, kk) => Some(sem_add_imm(s, x as int, kk)),
        Op::LoadReg(x, y) => Some(sem_load_reg(s, x as int, y as int)),
        Op::OrReg(x, y) => Some(sem_or_reg(s, x as int, y as int)),
        Op::AndReg(x, y) => Some(sem_and_reg(s, x as int, y as int)),
        Op::XorReg(x, y) => Some(sem_xor_reg(s, x as int, y as int)),
        Op::AddReg(x, y) => Some(sem_add_reg(s, x as int, y as int)),
        Op::SubReg(x, y) => Some(sem_sub_reg(s, x as int, y as int)),
        Op::ShrReg(x) => Some(sem_shr_reg(s, x as int)),
        Op::SubnReg(x, y) => Some(sem_subn_reg(s, x as int, y as int)),
        Op::ShlReg(x) => Some(sem_shl_reg(s, x as int)),
        Op::SkipNeReg(x, y) => Some(sem_skip_reg(s, x as int, y as int, false)),
        Op::LoadAddr(nnn) => Some(sem_load_addr(s, nnn)),
        Op::JumpV0(nnn) => Some(sem_jump_v0(s, nnn)),
        Op::RandomAnd(x, kk) => Some(sem_random(s, x as int, kk, rnd)),
        Op::Draw(x, y, n) => sem_draw(s, x as int, y as int, n as int),
        Op::SkipKeyDown(x) => sem_skip_key(s, x as int, keys, true),
        Op::SkipKeyUp(x) => sem_skip_key(s, x as int, keys, false),
        Op::ReadDelay(x) => Some(sem_read_delay(s, x as int)),
        Op::WaitKey(x) => Some(sem_wait_key(s, x as int)),
        Op::SetDelay(x) => Some(sem_set_delay(s, x as int)),
        Op::SetSound(x) => Some(sem_set_sound(s, x as int)),
        Op::AddAddr(x) => Some(sem_add_addr(s, x as int)),
        Op::LoadFont(x) => Some(sem_load_font(s, x as int)),
        Op::StoreBcd(x) => sem_store_bcd(s, x as int),
        Op::StoreRegs(x) => sem_store_regs(s, x as int),
        Op::LoadRegs(x) => sem_load_regs(s, x as int),
    }
}

/// The key-wait service: the first key down, scanning from key 0, lands
/// in the target register and wakes the machine; with no key down the
/// state is untouched, timers included.
pub open spec fn sem_wait_service(s: StateV, keys: Seq<KeyState>) -> StateV {
    match first_down_from(keys, 0) {
        Some(k) => StateV {
            regs: s.regs.update(s.key_register_index, k as u8),
            waiting_for_key: false,
            ..s
        },
        None => s,
    }
}

/// The meaning of one whole engine iteration on state `s` with input
/// snapshot `keys` and random byte `rnd`: service a pending key wait, or
/// fetch, advance, tick the timers and execute one instruction. `None`
/// is a fatal malformed-program error: a fetch past the end of memory,
/// an opcode matching no defined pattern, or a failing operation.
pub open spec fn step_spec(s: StateV, keys: Seq<KeyState>, rnd: u8) -> Option<StateV> {
    if s.waiting_for_key {
        Some(sem_wait_service(s, keys))
    } else if s.pc + 1 >= MEMORY_SIZE {
        None
    } else {
        match spec_decode(fetch(s)) {
            Some(op) => sem_op(tick(advance(s)), op, keys, rnd),
            None => None,
        }
    }
}

/// `n` iterations of `step_spec` under one input snapshot and random
/// byte, `None` as soon as any iteration is fatal.
pub open spec fn steps_n(s: StateV, keys: Seq<KeyState>, rnd: u8, n: nat) -> Option<StateV>
    decreases n,
{
    if n == 0 {
        Some(s)
    } else {
        match step_spec(s, keys, rnd) {
            Some(t) => steps_n(t, keys, rnd, (n - 1) as nat),
            None => None,
        }
    }
}

} // verus!
