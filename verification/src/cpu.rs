//! The CPU engine: one fetch/decode/execute (or key-wait) iteration per
//! call, proved to implement `step_spec` exactly.

use vstd::prelude::*;

use crate::keyboard::{first_key_down, KeyState, Keys, NUM_KEYS};
use crate::op::{decode, Op};
use crate::ram::{MEMORY_SIZE, PROGRAM_START};
use crate::semantics::{
    advance, collision_upto, draw_upto, grid_update, lemma_draw_upto_cell_step,
    lemma_draw_upto_full, lemma_draw_upto_row_step, lemma_draw_upto_zero, read_regs, sem_add_addr,
    sem_add_imm, sem_add_reg, sem_and_reg, sem_call, sem_clear_screen, sem_draw, sem_jump,
    sem_jump_v0, sem_load_addr, sem_load_font, sem_load_imm, sem_load_reg, sem_load_regs,
    sem_op, sem_or_reg, sem_random, sem_read_delay, sem_return, sem_set_delay, sem_set_sound,
    sem_shl_reg, sem_shr_reg, sem_skip_imm, sem_skip_key, sem_skip_reg, sem_store_bcd,
    sem_store_regs, sem_sub_reg, sem_subn_reg, sem_wait_key, sem_wait_service, sem_xor_reg,
    step_spec, tick, write_regs,
};
use crate::stack::STACK_SIZE;
use crate::state::{is_initial_state, State, StateV};

verus! {

/// Relies on rand::random: a byte drawn uniformly from the thread-local
/// generator. Nothing is promised of the value; the engine is verified
/// for every byte it may hand back.
#[verifier::external_body]
fn random_byte() -> u8 {
    rand::random()
}

impl State {
    /// 00E0.
    fn op_clear_screen(&mut self)
        requires
            old(self).wf(),
        ensures
            final(self).wf(),
            final(self)@ == sem_clear_screen(old(self)@),
    {
        self.display_buffer = [[0; 64]; 32];
        proof {
            assert(self@ =~~= sem_clear_screen(old(self)@));
        }
    }

    /// 00EE.
    fn op_return(&mut self)
        requires
            old(self).wf(),
            old(self)@.stack.len() > 0,
        ensures
            final(self).wf(),
            sem_return(old(self)@) == Some(final(self)@),
    {
        let return_address = self.stack.pop();
        self.pc = return_address as usize;
        proof {
            assert(self@ =~~= (StateV {
                pc: old(self)@.stack.last() as int,
                stack: old(self)@.stack.drop_last(),
                ..old(self)@
            }));
        }
    }

    /// 1nnn.
    fn op_jump(&mut self, nnn: u16)
        requires
            old(self).wf(),
        ensures
            final(self).wf(),
            final(self)@ == sem_jump(old(self)@, nnn),
    {
        self.pc = nnn as usize;
        proof {
            assert(self@ =~~= sem_jump(old(self)@, nnn));
        }
    }

    /// 2nnn.
    fn op_call(&mut self, nnn: u16)
        requires
            old(self).wf(),
            old(self)@.stack.len() < STACK_SIZE,
            old(self)@.pc <= u16::MAX,
        ensures
            final(self).wf(),
            sem_call(old(self)@, nnn) == Some(final(self)@),
    {
        let return_address = self.pc as u16;
        self.stack.push(return_address);
        self.pc = nnn as usize;
        proof {
            assert(self@ =~~= (StateV {
                pc: nnn as int,
                stack: old(self)@.stack.push(old(self)@.pc as u16),
                ..old(self)@
            }));
        }
    }

    /// 3xkk / 4xkk.
    fn op_skip_imm(&mut self, x: u8, kk: u8, when_equal: bool)
        requires
            old(self).wf(),
            x < 16,
            old(self)@.pc + 2 <= usize::MAX,
        ensures
            final(self).wf(),
            final(self)@ == sem_skip_imm(old(self)@, x as int, kk, when_equal),
    {
        let vx = self.registers[x as usize];
        if (vx == kk) == when_equal {
            self.next_instruction();
        }
    }

    /// 5xy0 / 9xy0.
    fn op_skip_reg(&mut self, x: u8, y: u8, when_equal: bool)
        requires
            old(self).wf(),
            x < 16,
            y < 16,
            old(self)@.pc + 2 <= usize::MAX,
        ensures
            final(self).wf(),
            final(self)@ == sem_skip_reg(old(self)@, x as int, y as int, when_equal),
    {
        let vx = self.registers[x as usize];
        let vy = self.registers[y as usize];
        if (vx == vy) == when_equal {
            self.next_instruction();
        }
    }

    /// 6xkk.
    fn op_load_imm(&mut self, x: u8, kk: u8)
        requires
            old(self).wf(),
            x < 16,
        ensures
            final(self).wf(),
            final(self)@ == sem_load_imm(old(self)@, x as int, kk),
    {
        self.registers[x as usize] = kk;
    }

    /// 7xkk.
    fn op_add_imm(&mut self, x: u8, kk: u8)
        requires
            old(self).wf(),
            x < 16,
        ensures
            final(self).wf(),
            final(self)@ == sem_add_imm(old(self)@, x as int, kk),
    {
        let vx = self.registers[x as usize];
        let sum = vx as u16 + kk as u16;
        self.registers[x as usize] = (sum % 256) as u8;
    }

    /// 8xy0.
    fn op_load_reg(&mut self, x: u8, y: u8)
        requires
            old(self).wf(),
            x < 16,
            y < 16,
        ensures
            final(self).wf(),
            final(self)@ == sem_load_reg(old(self)@, x as int, y as int),
    {
        self.registers[x as usize] = self.registers[y as usize];
    }

    /// 8xy1.
    fn op_or_reg(&mut self, x: u8, y: u8)
        requires
            old(self).wf(),
            x < 16,
            y < 16,
        ensures
            final(self).wf(),
            final(self)@ == sem_or_reg(old(self)@, x as int, y as int),
    {
        let vx = self.registers[x as usize];
        let vy = self.registers[y as usize];
        self.registers[x as usize] = vx | vy;
    }

    /// 8xy2.
    fn op_and_reg(&mut self, x: u8, y: u8)
        requires
            old(self).wf(),
            x < 16,
            y < 16,
        ensures
            final(self).wf(),
            final(self)@ == sem_and_reg(old(self)@, x as int, y as int),
    {
        let vx = self.registers[x as usize];
        let vy = self.registers[y as usize];
        self.registers[x as usize] = vx & vy;
    }

    /// 8xy3.
    fn op_xor_reg(&mut self, x: u8, y: u8)
        requires
            old(self).wf(),
            x < 16,
            y < 16,
        ensures
            final(self).wf(),
            final(self)@ == sem_xor_reg(old(self)@, x as int, y as int),
    {
        let vx = self.registers[x as usize];
        let vy = self.registers[y as usize];
        self.registers[x as usize] = vx ^ vy;
    }

    /// 8xy4.
    fn op_add_reg(&mut self, x: u8, y: u8)
        requires
            old(self).wf(),
            x < 16,
            y < 16,
        ensures
            final(self).wf(),
            final(self)@ == sem_add_reg(old(self)@, x as int, y as int),
    {
        let vx = self.registers[x as usize];
        let vy = self.registers[y as usize];
        let sum = vx as u16 + vy as u16;
        self.registers[15] = if sum > 255 {
            1
        } else {
            0
        };
        self.registers[x as usize] = (sum % 256) as u8;
    }

    /// 8xy5.
    fn op_sub_reg(&mut self, x: u8, y: u8)
        requires
            old(self).wf(),
            x < 16,
            y < 16,
        ensures
            final(self).wf(),
            final(self)@ == sem_sub_reg(old(self)@, x as int, y as int),
    {
        let vx = self.registers[x as usize];
        let vy = self.registers[y as usize];
        self.registers[15] = if vx > vy {
            1
        } else {
            0
        };
        self.registers[x as usize] = ((256 + vx as u16 - vy as u16) % 256) as u8;
        proof {
            vstd::arithmetic::div_mod::lemma_mod_add_multiples_vanish(vx - vy, 256);
        }
    }

    /// 8xy6.
    fn op_shr_reg(&mut self, x: u8)
        requires
            old(self).wf(),
            x < 16,
        ensures
            final(self).wf(),
            final(self)@ == sem_shr_reg(old(self)@, x as int),
    {
        let vx = self.registers[x as usize];
        self.registers[15] = vx & 1;
        let cur = self.registers[x as usize];
        self.registers[x as usize] = cur >> 1;
    }

    /// 8xy7.
    fn op_subn_reg(&mut self, x: u8, y: u8)
        requires
            old(self).wf(),
            x < 16,
            y < 16,
        ensures
            final(self).wf(),
            final(self)@ == sem_subn_reg(old(self)@, x as int, y as int),
    {
        let vx = self.registers[x as usize];
        let vy = self.registers[y as usize];
        self.registers[15] = if vy > vx {
            1
        } else {
            0
        };
        self.registers[x as usize] = ((256 + vy as u16 - vx as u16) % 256) as u8;
        proof {
            vstd::arithmetic::div_mod::lemma_mod_add_multiples_vanish(vy - vx, 256);
        }
    }

    /// 8xyE.
    fn op_shl_reg(&mut self, x: u8)
        requires
            old(self).wf(),
            x < 16,
        ensures
            final(self).wf(),
            final(self)@ == sem_shl_reg(old(self)@, x as int),
    {
        let vx = self.registers[x as usize];
        self.registers[15] = (vx & 0x80) >> 7;
        let cur = self.registers[x as usize];
        self.registers[x as usize] = ((cur as u16 * 2) % 256) as u8;
    }

    /// Annn.
    fn op_load_addr(&mut self, nnn: u16)
        requires
            old(self).wf(),
            nnn < 0x1000,
        ensures
            final(self).wf(),
            final(self)@ == sem_load_addr(old(self)@, nnn),
    {
        self.set_address_register(nnn);
    }

    /// Bnnn.
    fn op_jump_v0(&mut self, nnn: u16)
        requires
            old(self).wf(),
            nnn < 0x1000,
        ensures
            final(self).wf(),
            final(self)@ == sem_jump_v0(old(self)@, nnn),
    {
        let v0 = self.registers[0];
        self.pc = nnn as usize + v0 as usize;
        proof {
            assert(self@ =~~= sem_jump_v0(old(self)@, nnn));
        }
    }

    /// Cxkk, on an already-drawn random byte.
    fn op_random(&mut self, x: u8, kk: u8, random_value: u8)
        requires
            old(self).wf(),
            x < 16,
        ensures
            final(self).wf(),
            final(self)@ == sem_random(old(self)@, x as int, kk, random_value),
    {
        self.registers[x as usize] = random_value & kk;
    }

    /// Dxyn.
    fn op_draw(&mut self, x: u8, y: u8, n: u8)
        requires
            old(self).wf(),
            x < 16,
            y < 16,
            n < 16,
            n > 0 ==> old(self)@.i + n <= MEMORY_SIZE,
        ensures
            final(self).wf(),
            sem_draw(old(self)@, x as int, y as int, n as int) == Some(final(self)@),
    {
        let x0 = self.registers[x as usize] as usize;
        let y0 = self.registers[y as usize] as usize;
        let addr = self.i as usize;
        let ghost g0 = old(self)@.grid;
        let ghost mem0 = old(self)@.mem;
        let mut collision = false;
        proof {
            self.ram.lemma_len();
            lemma_draw_upto_zero(g0, mem0, addr as int, x0 as int, y0 as int, n as int);
        }
        let mut yy: usize = 0;
        while yy < n as usize
            invariant
                self.wf(),
                x0 < 256,
                y0 < 256,
                yy <= n < 16,
                n > 0 ==> addr + n <= MEMORY_SIZE,
                g0 == old(self)@.grid,
                mem0 == old(self)@.mem,
                mem0.len() == MEMORY_SIZE,
                (StateV { grid: g0, ..self@ }) == old(self)@,
                g0.len() == 32,
                forall|r: int| 0 <= r < 32 ==> (#[trigger] g0[r]).len() == 64,
                self@.grid == draw_upto(
                    g0,
                    mem0,
                    addr as int,
                    x0 as int,
                    y0 as int,
                    n as int,
                    yy as int,
                    0,
                ),
                collision == collision_upto(
                    g0,
                    mem0,
                    addr as int,
                    x0 as int,
                    y0 as int,
                    n as int,
                    yy as int,
                    0,
                ),
            decreases n - yy,
        {
            proof {
                self.ram.lemma_len();
                assert(self@.mem == mem0);
            }
            let row = self.ram.get(addr + yy);
            let mut xx: usize = 0;
            while xx < 8
                invariant
                    self.wf(),
                    x0 < 256,
                    y0 < 256,
                    yy < n < 16,
                    xx <= 8,
                    n > 0 ==> addr + n <= MEMORY_SIZE,
                    g0 == old(self)@.grid,
                    mem0 == old(self)@.mem,
                    mem0.len() == MEMORY_SIZE,
                    row == mem0[addr + yy],
                    (StateV { grid: g0, ..self@ }) == old(self)@,
                    g0.len() == 32,
                    forall|r: int| 0 <= r < 32 ==> (#[trigger] g0[r]).len() == 64,
                    self@.grid == draw_upto(
                        g0,
                        mem0,
                        addr as int,
                        x0 as int,
                        y0 as int,
                        n as int,
                        yy as int,
                        xx as int,
                    ),
                    collision == collision_upto(
                        g0,
                        mem0,
                        addr as int,
                        x0 as int,
                        y0 as int,
                        n as int,
                        yy as int,
                        xx as int,
                    ),
                decreases 8 - xx,
            {
                proof {
                    lemma_draw_upto_cell_step(
                        g0,
                        mem0,
                        addr as int,
                        x0 as int,
                        y0 as int,
                        n as int,
                        yy as int,
                        xx as int,
                    );
                }
                let mask = 0x80u8 >> (xx as u8);
                if row & mask != 0 {
                    let xc = (x0 + xx) % 64;
                    let yc = (y0 + yy) % 32;
                    let cur = self.display_buffer[yc][xc];
                    if cur == 1 {
                        collision = true;
                    }
                    let ghost prev = self@.grid;
                    self.display_buffer[yc][xc] = cur ^ 1;
                    proof {
                        assert(self@.grid =~~= grid_update(prev, yc as int, xc as int, cur ^ 1));
                    }
                }
                xx += 1;
            }
            proof {
                lemma_draw_upto_row_step(
                    g0,
                    mem0,
                    addr as int,
                    x0 as int,
                    y0 as int,
                    n as int,
                    yy as int,
                );
            }
            yy += 1;
        }
        self.registers[15] = if collision {
            1
        } else {
            0
        };
        self.should_draw = true;
        proof {
            lemma_draw_upto_full(g0, mem0, addr as int, x0 as int, y0 as int, n as int);
            assert(self@ =~~= (StateV {
                grid: crate::semantics::draw_grid(
                    g0,
                    mem0,
                    addr as int,
                    x0 as int,
                    y0 as int,
                    n as int,
                ),
                regs: old(self)@.regs.update(
                    15,
                    if crate::semantics::draw_collision(
                        g0,
                        mem0,
                        addr as int,
                        x0 as int,
                        y0 as int,
                        n as int,
                    ) {
                        1u8
                    } else {
                        0u8
                    },
                ),
                should_draw: true,
                ..old(self)@
            }));
        }
    }

    /// Ex9E / ExA1.
    fn op_skip_key(&mut self, x: u8, keys: &Keys, when_down: bool)
        requires
            old(self).wf(),
            x < 16,
            old(self)@.regs[x as int] < NUM_KEYS,
            old(self)@.pc + 2 <= usize::MAX,
        ensures
            final(self).wf(),
            sem_skip_key(old(self)@, x as int, keys@, when_down) == Some(final(self)@),
    {
        let key = self.registers[x as usize] as usize;
        if (keys[key] == KeyState::Down) == when_down {
            self.next_instruction();
        }
    }

    /// Fx07.
    fn op_read_delay(&mut self, x: u8)
        requires
            old(self).wf(),
            x < 16,
        ensures
            final(self).wf(),
            final(self)@ == sem_read_delay(old(self)@, x as int),
    {
        self.registers[x as usize] = self.delay_timer;
    }

    /// Fx0A.
    fn op_wait_key(&mut self, x: u8)
        requires
            old(self).wf(),
            x < 16,
        ensures
            final(self).wf(),
            final(self)@ == sem_wait_key(old(self)@, x as int),
    {
        self.key_register_index = x as usize;
        self.waiting_for_key = true;
        proof {
            assert(self@ =~~= sem_wait_key(old(self)@, x as int));
        }
    }

    /// Fx15.
    fn op_set_delay(&mut self, x: u8)
        requires
            old(self).wf(),
            x < 16,
        ensures
            final(self).wf(),
            final(self)@ == sem_set_delay(old(self)@, x as int),
    {
        self.delay_timer = self.registers[x as usize];
    }

    /// Fx18.
    fn op_set_sound(&mut self, x: u8)
        requires
            old(self).wf(),
            x < 16,
        ensures
            final(self).wf(),
            final(self)@ == sem_set_sound(old(self)@, x as int),
    {
        self.sound_timer = self.registers[x as usize];
    }

    /// Fx1E.
    fn op_add_addr(&mut self, x: u8)
        requires
            old(self).wf(),
            x < 16,
        ensures
            final(self).wf(),
            final(self)@ == sem_add_addr(old(self)@, x as int),
    {
        let vx = self.registers[x as usize];
        let sum = self.i as u32 + vx as u32;
        self.registers[15] = if sum > 255 {
            1
        } else {
            0
        };
        self.i = (sum % 65536) as u16;
    }

    /// Fx29.
    fn op_load_font(&mut self, x: u8)
        requires
            old(self).wf(),
            x < 16,
        ensures
            final(self).wf(),
            final(self)@ == sem_load_font(old(self)@, x as int),
    {
        let vx = self.registers[x as usize];
        self.i = vx as u16 * 5;
    }

    /// Fx33.
    fn op_store_bcd(&mut self, x: u8)
        requires
            old(self).wf(),
            x < 16,
            old(self)@.i + 2 < MEMORY_SIZE,
        ensures
            final(self).wf(),
            sem_store_bcd(old(self)@, x as int) == Some(final(self)@),
    {
        let vx = self.registers[x as usize];
        let addr = self.i as usize;
        proof {
            self.ram.lemma_len();
        }
        self.ram.set(addr, (vx / 100) % 10);
        self.ram.set(addr + 1, (vx / 10) % 10);
        self.ram.set(addr + 2, vx % 10);
        proof {
            assert(Some(self@) =~~= sem_store_bcd(old(self)@, x as int));
        }
    }

    /// Fx55.
    fn op_store_regs(&mut self, x: u8)
        requires
            old(self).wf(),
            x < 16,
            old(self)@.i + x < MEMORY_SIZE,
        ensures
            final(self).wf(),
            sem_store_regs(old(self)@, x as int) == Some(final(self)@),
    {
        let addr = self.i as usize;
        let mut idx: usize = 0;
        while idx < x as usize + 1
            invariant
                self.wf(),
                x < 16,
                addr == old(self)@.i,
                addr + x < MEMORY_SIZE,
                idx <= x + 1,
                (StateV { mem: old(self)@.mem, ..self@ }) == old(self)@,
                self@.mem == write_regs(old(self)@.mem, old(self)@.regs, addr as int, idx as int),
            decreases x + 1 - idx,
        {
            let value = self.registers[idx];
            proof {
                self.ram.lemma_len();
            }
            self.ram.set(addr + idx, value);
            idx += 1;
        }
        proof {
            assert(Some(self@) =~~= sem_store_regs(old(self)@, x as int));
        }
    }

    /// Fx65.
    fn op_load_regs(&mut self, x: u8)
        requires
            old(self).wf(),
            x < 16,
            old(self)@.i + x < MEMORY_SIZE,
        ensures
            final(self).wf(),
            sem_load_regs(old(self)@, x as int) == Some(final(self)@),
    {
        let addr = self.i as usize;
        let mut idx: usize = 0;
        while idx < x as usize + 1
            invariant
                self.wf(),
                x < 16,
                addr == old(self)@.i,
                addr + x < MEMORY_SIZE,
                idx <= x + 1,
                (StateV { regs: old(self)@.regs, ..self@ }) == old(self)@,
                self@.regs == read_regs(old(self)@.regs, old(self)@.mem, addr as int, idx as int),
            decreases x + 1 - idx,
        {
            proof {
                self.ram.lemma_len();
            }
            let value = self.ram.get(addr + idx);
            self.registers[idx] = value;
            idx += 1;
        }
        proof {
            assert(Some(self@) =~~= sem_load_regs(old(self)@, x as int));
        }
    }

    /// Execute one decoded operation on an already-ticked state. `false`
    /// reports a fatal malformed-program condition, with the state left
    /// untouched.
    fn execute(&mut self, op: Op, keys: &Keys, random_value: u8) -> (ok: bool)
        requires
            old(self).wf(),
            op.wf(),
            old(self)@.pc + 2 <= u16::MAX,
        ensures
            final(self).wf(),
            match sem_op(old(self)@, op, keys@, random_value) {
                Some(v) => ok && final(self)@ == v,
                None => !ok && final(self)@ == old(self)@,
            },
    {
        match op {
            Op::ClearScreen => {
                self.op_clear_screen();
                true
            },
            Op::Return => {
                if self.stack.len() == 0 {
                    return false;
                }
                self.op_return();
                true
            },
            Op::Jump(nnn) => {
                self.op_jump(nnn);
                true
            },
            Op::Call(nnn) => {
                if self.stack.len() >= STACK_SIZE {
                    return false;
                }
                self.op_call(nnn);
                true
            },
            Op::SkipEqImm(x, kk) => {
                self.op_skip_imm(x, kk, true);
                true
            },
            Op::SkipNeImm(x, kk) => {
                self.op_skip_imm(x, kk, false);
                true
            },
            Op::SkipEqReg(x, y) => {
                self.op_skip_reg(x, y, true);
                true
            },
            Op::LoadImm(x, kk) => {
                self.op_load_imm(x, kk);
                true
            },
            Op::AddImm(x, kk) => {
                self.op_add_imm(x, kk);
                true
            },
            Op::LoadReg(x, y) => {
                self.op_load_reg(x, y);
                true
            },
            Op::OrReg(x, y) => {
                self.op_or_reg(x, y);
                true
            },
            Op::AndReg(x, y) => {
                self.op_and_reg(x, y);
                true
            },
            Op::XorReg(x, y) => {
                self.op_xor_reg(x, y);
                true
            },
            Op::AddReg(x, y) => {
                self.op_add_reg(x, y);
                true
            },
            Op::SubReg(x, y) => {
                self.op_sub_reg(x, y);
                true
            },
            Op::ShrReg(x) => {
                self.op_shr_reg(x);
                true
            },
            Op::SubnReg(x, y) => {
                self.op_subn_reg(x, y);
                true
            },
            Op::ShlReg(x) => {
                self.op_shl_reg(x);
                true
            },
            Op::SkipNeReg(x, y) => {
                self.op_skip_reg(x, y, false);
                true
            },
            Op::LoadAddr(nnn) => {
                self.op_load_addr(nnn);
                true
            },
            Op::JumpV0(nnn) => {
                self.op_jump_v0(nnn);
                true
            },
            Op::RandomAnd(x, kk) => {
                self.op_random(x, kk, random_value);
                true
            },
            Op::Draw(x, y, n) => {
                if n > 0 && self.i as usize + n as usize > MEMORY_SIZE {
                    return false;
                }
                self.op_draw(x, y, n);
                true
            },
            Op::SkipKeyDown(x) => {
                if self.registers[x as usize] >= 16 {
                    return false;
                }
                self.op_skip_key(x, keys, true);
                true
            },
            Op::SkipKeyUp(x) => {
                if self.registers[x as usize] >= 16 {
                    return false;
                }
                self.op_skip_key(x, keys, false);
                true
            },
            Op::ReadDelay(x) => {
                self.op_read_delay(x);
                true
            },
            Op::WaitKey(x) => {
                self.op_wait_key(x);
                true
            },
            Op::SetDelay(x) => {
                self.op_set_delay(x);
                true
            },
            Op::SetSound(x) => {
                self.op_set_sound(x);
                true
            },
            Op::AddAddr(x) => {
                self.op_add_addr(x);
                true
            },
            Op::LoadFont(x) => {
                self.op_load_font(x);
                true
            },
            Op::StoreBcd(x) => {
                if self.i as usize + 2 >= MEMORY_SIZE {
                    return false;
                }
                self.op_store_bcd(x);
                true
            },
            Op::StoreRegs(x) => {
                if self.i as usize + x as usize >= MEMORY_SIZE {
                    return false;
                }
                self.op_store_regs(x);
                true
            },
            Op::LoadRegs(x) => {
                if self.i as usize + x as usize >= MEMORY_SIZE {
                    return false;
                }
                self.op_load_regs(x);
                true
            },
        }
    }
}

/// How one engine call relates the prior state, the returned snapshot
/// and the new state, given the random byte the iteration drew.
pub open spec fn step_outcome(
    pre: StateV,
    keys: Seq<KeyState>,
    rnd: u8,
    r: Option<State>,
    post: StateV,
) -> bool {
    match step_spec(pre, keys, rnd) {
        Some(v) => r matches Some(st) && st@ == v && post == v,
        None => r is None && post == pre,
    }
}

/// The virtual machine: the state plus the engine that advances it.
#[derive(Clone, Copy)]
pub struct Chip8 {
    /// The machine state, mutated in place one iteration at a time.
    pub state: State,
}

impl Chip8 {
    /// A machine freshly loaded with `program`, which must fit in the
    /// 3584 bytes of memory above the program start.
    pub fn new(program: &[u8]) -> (c: Chip8)
        requires
            program@.len() <= MEMORY_SIZE - PROGRAM_START,
        ensures
            c.state.wf(),
            is_initial_state(c.state@, program@),
    {
        Chip8 { state: State::new(program) }
    }

    /// One engine iteration with the random byte supplied by the caller,
    /// for deterministic replay: service a pending key wait, or fetch,
    /// advance, tick the timers and execute one instruction. `None`
    /// reports a fatal malformed-program condition (unknown opcode,
    /// stack overflow or underflow, an access past the end of memory),
    /// with the state left unchanged; otherwise the new state is
    /// returned as a snapshot.
    pub fn step(&mut self, keys: &Keys, random_value: u8) -> (r: Option<State>)
        requires
            old(self).state.wf(),
        ensures
            final(self).state.wf(),
            step_outcome(old(self).state@, keys@, random_value, r, final(self).state@),
    {
        if self.state.waiting_for_key {
            match first_key_down(keys) {
                Some(key) => {
                    let idx = self.state.key_register_index;
                    self.state.registers[idx] = key as u8;
                    self.state.waiting_for_key = false;
                },
                None => {},
            }
            proof {
                assert(self.state@ =~~= sem_wait_service(old(self).state@, keys@));
            }
            return Some(self.state.clone());
        }
        if self.state.pc >= MEMORY_SIZE - 1 {
            return None;
        }
        let instruction = self.state.instruction();
        let op = match decode(instruction) {
            Some(op) => op,
            None => {
                return None;
            },
        };
        let mut working = self.state;
        working.next_instruction();
        if working.delay_timer > 0 {
            working.delay_timer -= 1;
        }
        if working.sound_timer > 0 {
            working.sound_timer -= 1;
        }
        working.should_draw = false;
        working.play_audio = working.sound_timer > 0;
        proof {
            assert(working@ =~~= tick(advance(old(self).state@)));
        }
        let ok = working.execute(op, keys, random_value);
        if ok {
            self.state = working;
            Some(self.state.clone())
        } else {
            None
        }
    }

    /// One engine iteration on a fresh random byte. The outcome is that
    /// of `step` for some byte; everything else about the iteration is
    /// pinned down.
    pub fn iteration(&mut self, keys: &Keys) -> (r: Option<State>)
        requires
            old(self).state.wf(),
        ensures
            final(self).state.wf(),
            exists|b: u8| step_outcome(old(self).state@, keys@, b, r, final(self).state@),
    {
        let random_value = random_byte();
        let r = self.step(keys, random_value);
        proof {
            assert(step_outcome(old(self).state@, keys@, random_value, r, self.state@));
        }
        r
    }
}

} // verus!
