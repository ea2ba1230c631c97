//! Machine-wide laws of the semantics, proved once and for all inputs.

use vstd::prelude::*;

use crate::keyboard::{first_down_from, KeyState};
use crate::op::{spec_decode, Op};
use crate::ram::{font_table, glyph, FONT_BYTES, MEMORY_SIZE};
use crate::semantics::{
    dec, draw_collision, draw_grid, fetch, lemma_sprite_target, sem_call, sem_clear_screen,
    sem_load_font, sem_return, sprite_bit, step_spec, steps_n,
};
use crate::stack::STACK_SIZE;
use crate::state::{StateV, DISPLAY_HEIGHT, DISPLAY_WIDTH};

verus! {

/// Drawing the same sprite at the same position twice restores the
/// display exactly: XOR is its own inverse cell by cell. The flag
/// register after the second pass is that pass's own collision bit, by
/// the draw semantics.
pub proof fn lemma_draw_twice_restores(
    g: Seq<Seq<u8>>,
    mem: Seq<u8>,
    i: int,
    x0: int,
    y0: int,
    n: int,
)
    requires
        g.len() == DISPLAY_HEIGHT,
        forall|r: int| 0 <= r < DISPLAY_HEIGHT ==> (#[trigger] g[r]).len() == DISPLAY_WIDTH,
    ensures
        draw_grid(draw_grid(g, mem, i, x0, y0, n), mem, i, x0, y0, n) == g,
{
    let d1 = draw_grid(g, mem, i, x0, y0, n);
    let d2 = draw_grid(d1, mem, i, x0, y0, n);
    assert(forall|b: u8| #[trigger] ((b ^ 1) ^ 1) == b) by (bit_vector);
    assert(d2 =~~= g);
}

/// The collision bit of the second of two identical draws speaks of the
/// second pass alone: it is set exactly where a set sprite bit had
/// landed on an originally clear cell — the cell the first pass lit.
pub proof fn lemma_second_pass_collision(
    g: Seq<Seq<u8>>,
    mem: Seq<u8>,
    i: int,
    x0: int,
    y0: int,
    n: int,
)
    requires
        g.len() == DISPLAY_HEIGHT,
        forall|r: int| 0 <= r < DISPLAY_HEIGHT ==> (#[trigger] g[r]).len() == DISPLAY_WIDTH,
        n <= 15,
    ensures
        draw_collision(draw_grid(g, mem, i, x0, y0, n), mem, i, x0, y0, n) == (exists|
            yy: int,
            xx: int,
        |
            0 <= yy < n && 0 <= xx < 8 && #[trigger] sprite_bit(mem[i + yy], xx) && g[(y0 + yy) % (
            DISPLAY_HEIGHT as int)][(x0 + xx) % (DISPLAY_WIDTH as int)] == 0),
{
    let h = DISPLAY_HEIGHT as int;
    let w = DISPLAY_WIDTH as int;
    let d1 = draw_grid(g, mem, i, x0, y0, n);
    assert(forall|b: u8| ((#[trigger] (b ^ 1)) == 1) == (b == 0)) by (bit_vector);
    // Under a set sprite bit, the first pass flips the cell.
    assert forall|yy: int, xx: int|
        0 <= yy < n && 0 <= xx < 8 && #[trigger] sprite_bit(mem[i + yy], xx) implies d1[(y0 + yy)
        % h][(x0 + xx) % w] == (g[(y0 + yy) % h][(x0 + xx) % w] ^ 1) by {
        lemma_sprite_target(x0, y0, yy, xx);
    }
    if draw_collision(d1, mem, i, x0, y0, n) {
        let (yy, xx) = choose|yy: int, xx: int|
            0 <= yy < n && 0 <= xx < 8 && #[trigger] sprite_bit(mem[i + yy], xx) && d1[(y0 + yy)
                % h][(x0 + xx) % w] == 1;
        assert(g[(y0 + yy) % h][(x0 + xx) % w] == 0);
    }
    if exists|yy: int, xx: int|
        0 <= yy < n && 0 <= xx < 8 && #[trigger] sprite_bit(mem[i + yy], xx) && g[(y0 + yy)
            % h][(x0 + xx) % w] == 0 {
        let (yy, xx) = choose|yy: int, xx: int|
            0 <= yy < n && 0 <= xx < 8 && #[trigger] sprite_bit(mem[i + yy], xx) && g[(y0 + yy)
                % h][(x0 + xx) % w] == 0;
        assert(d1[(y0 + yy) % h][(x0 + xx) % w] == 1);
        assert(draw_collision(d1, mem, i, x0, y0, n));
    }
}

/// A call followed immediately by a return is a round trip: the program
/// counter comes back to the instruction after the call (the state here
/// is the already-advanced one the call executes on) and the stack comes
/// back unchanged — in fact the whole state does.
pub proof fn lemma_call_return_round_trip(s: StateV, nnn: u16)
    requires
        s.stack.len() < STACK_SIZE,
        0 <= s.pc <= u16::MAX,
    ensures
        sem_call(s, nnn) matches Some(called) && sem_return(called) == Some(s),
{
    let called = StateV { pc: nnn as int, stack: s.stack.push(s.pc as u16), ..s };
    assert(sem_call(s, nnn) == Some(called));
    assert(called.stack.drop_last() =~= s.stack);
    assert(sem_return(called) matches Some(returned) && returned =~~= s);
}

/// While the machine waits for a key and no key is down, any number of
/// iterations leave the state — delay and sound timers included —
/// exactly as it is.
pub proof fn lemma_wait_preserves_state(s: StateV, keys: Seq<KeyState>, rnd: u8, n: nat)
    requires
        s.waiting_for_key,
        first_down_from(keys, 0) is None,
    ensures
        steps_n(s, keys, rnd, n) == Some(s),
    decreases n,
{
    if n > 0 {
        assert(step_spec(s, keys, rnd) == Some(s));
        lemma_wait_preserves_state(s, keys, rnd, (n - 1) as nat);
    }
}

/// The first iteration that sees a key down wakes the machine without
/// touching the timers; execution — and with it the timer countdown —
/// resumes on the following iteration.
pub proof fn lemma_key_down_resumes(s: StateV, keys: Seq<KeyState>, rnd: u8)
    requires
        s.waiting_for_key,
        first_down_from(keys, 0) is Some,
    ensures
        step_spec(s, keys, rnd) matches Some(t) && !t.waiting_for_key && t.delay_timer
            == s.delay_timer && t.sound_timer == s.sound_timer,
{
}

/// A running (not key-waiting) iteration that completes decrements each
/// nonzero timer by one, unless the executed instruction itself loads
/// that timer.
pub proof fn lemma_running_step_ticks_timers(s: StateV, keys: Seq<KeyState>, rnd: u8)
    requires
        !s.waiting_for_key,
        step_spec(s, keys, rnd) is Some,
    ensures
        step_spec(s, keys, rnd) matches Some(t) && spec_decode(fetch(s)) matches Some(op) && {
            &&& (!(op matches Op::SetDelay(_)) ==> t.delay_timer == dec(s.delay_timer))
            &&& (!(op matches Op::SetSound(_)) ==> t.sound_timer == dec(s.sound_timer))
        },
{
}

/// Clear-screen leaves every display cell zero, whatever it held.
pub proof fn lemma_clear_screen_blank(s: StateV, r: int, c: int)
    requires
        0 <= r < DISPLAY_HEIGHT,
        0 <= c < DISPLAY_WIDTH,
    ensures
        sem_clear_screen(s).grid[r][c] == 0,
{
}

/// Font lookup: with the font table intact in low memory, load-font for
/// a digit d held in Vx points the address register at d * 5, and the
/// five bytes from there are the canonical glyph for d.
pub proof fn lemma_font_lookup(s: StateV, x: int, d: int)
    requires
        0 <= x < 16,
        0 <= d < 16,
        s.regs[x] == d,
        s.mem.len() == MEMORY_SIZE,
        s.mem.subrange(0, FONT_BYTES as int) == font_table(),
    ensures
        sem_load_font(s, x).i == 5 * d,
        sem_load_font(s, x).mem.subrange(5 * d, 5 * d + 5) == glyph(d),
{
    let t = sem_load_font(s, x);
    assert(t.i == 5 * d);
    assert forall|k: int| 0 <= k < 5 implies t.mem.subrange(5 * d, 5 * d + 5)[k] == glyph(d)[k] by {
        assert(t.mem[5 * d + k] == s.mem.subrange(0, FONT_BYTES as int)[5 * d + k]);
    }
    assert(t.mem.subrange(5 * d, 5 * d + 5) =~= glyph(d));
}

} // verus!
