//! What holds of every machine: laws of the instruction semantics.

use crate::cpu::display::{bit, blank, drawn, erases, sprite_covers, PIXEL_COUNT};
use crate::cpu::model::{highest_down, Fault, Machine, FLAG, MEMORY_SIZE, STACK_DEPTH};
use crate::cpu::opcode::{
    fields_of, lemma_fields_of_word, operation_of, word_nnn, word_xkk, word_xyn, Operation,
};
use vstd::prelude::*;

verus! {

/// An instruction is executed exactly where the program counter leaves room
/// for it; elsewhere the step faults.
pub proof fn lemma_step_needs_room(m: Machine, opcode: u16, random: u8)
    ensures
        m.pc + 1 >= MEMORY_SIZE ==> m.step(opcode, random) == Err::<Machine, Fault>(
            Fault::ProgramCounterOutOfBounds,
        ),
        m.step(opcode, random) == Err::<Machine, Fault>(Fault::ProgramCounterOutOfBounds) ==> m.pc
            + 1 >= MEMORY_SIZE,
{
}

/// A step that succeeds leaves a well-formed machine well-formed.
pub proof fn lemma_step_keeps_wf(m: Machine, opcode: u16, random: u8)
    requires
        m.wf(),
    ensures
        m.step(opcode, random) matches Ok(after) ==> after.wf(),
{
    lemma_fields_in_range(opcode);
    if m.pc + 1 < MEMORY_SIZE {
        lemma_highest_down(m.keys, 16);
    }
}

/// The fields of every word are in range.
pub proof fn lemma_fields_in_range(opcode: u16)
    ensures
        fields_of(opcode).in_range(),
{
}

/// The random byte matters to `Random` operations only.
pub proof fn lemma_random_matters_to_random_only(m: Machine, opcode: u16, r1: u8, r2: u8)
    requires
        operation_of(opcode) != Operation::Random,
    ensures
        m.step(opcode, r1) == m.step(opcode, r2),
{
}

/// `highest_down` is `Some(k)` exactly for the key `k` that is down with no
/// key above it down, and `None` exactly when no key is down.
pub proof fn lemma_highest_down(keys: Seq<bool>, bound: int)
    requires
        0 <= bound <= keys.len(),
    ensures
        match highest_down(keys, bound) {
            Some(k) => 0 <= k < bound && keys[k] && forall|j: int| k < j < bound ==> !keys[j],
            None => forall|j: int| 0 <= j < bound ==> !keys[j],
        },
    decreases bound,
{
    if bound > 0 && !keys[bound - 1] {
        lemma_highest_down(keys, bound - 1);
    }
}

/// `6xkk` puts exactly `kk` into `Vx` and touches no other register.
pub proof fn lemma_load_byte(m: Machine, x: int, kk: u8, random: u8)
    requires
        m.wf(),
        m.pc + 1 < MEMORY_SIZE,
        0 <= x < 16,
    ensures
        m.step(word_xkk(6, x, kk as int), random) matches Ok(after) && after.v[x] == kk
            && after.pc == m.pc + 2 && forall|j: int|
            0 <= j < 16 && j != x ==> after.v[j] == m.v[j],
{
    lemma_fields_of_word(6, x, kk as int / 16, kk as int % 16);
}

/// `7xkk` adds `kk` to `Vx` modulo 256 and touches no other register, the
/// flag included.
pub proof fn lemma_add_byte(m: Machine, x: int, kk: u8, random: u8)
    requires
        m.wf(),
        m.pc + 1 < MEMORY_SIZE,
        0 <= x < 16,
    ensures
        m.step(word_xkk(7, x, kk as int), random) matches Ok(after) && after.v[x] == (m.v[x] + kk)
            % 256 && forall|j: int| 0 <= j < 16 && j != x ==> after.v[j] == m.v[j],
{
    lemma_fields_of_word(7, x, kk as int / 16, kk as int % 16);
}

/// `8xy4` leaves the low eight bits of `Vx + Vy` in `Vx`. Where `Vx` is not
/// the flag register itself, the flag is 1 if the sum exceeds 255 and 0 if not.
pub proof fn lemma_add_registers(m: Machine, x: int, y: int, random: u8)
    requires
        m.wf(),
        m.pc + 1 < MEMORY_SIZE,
        0 <= x < 16,
        0 <= y < 16,
    ensures
        m.step(word_xyn(8, x, y, 4), random) matches Ok(after) && after.v[x] == (m.v[x] + m.v[y])
            % 256 && (x != FLAG ==> after.v[FLAG as int] == (if m.v[x] + m.v[y] > 255 {
            1u8
        } else {
            0u8
        })),
{
    lemma_fields_of_word(8, x, y, 4);
}

/// `8xy5` leaves `Vx - Vy` modulo 256 in `Vx`. Where `Vx` is not the flag
/// register itself, the flag is 1 if nothing was borrowed and 0 if not.
pub proof fn lemma_subtract_registers(m: Machine, x: int, y: int, random: u8)
    requires
        m.wf(),
        m.pc + 1 < MEMORY_SIZE,
        0 <= x < 16,
        0 <= y < 16,
    ensures
        m.step(word_xyn(8, x, y, 5), random) matches Ok(after) && after.v[x] == (m.v[x] - m.v[y])
            % 256 && (x != FLAG ==> after.v[FLAG as int] == (if m.v[x] >= m.v[y] {
            1u8
        } else {
            0u8
        })),
{
    lemma_fields_of_word(8, x, y, 5);
}

/// `8xy6` and `8xyE` on a register other than the flag register put the bit
/// that the shift pushes out into the flag: the lowest bit of the old `Vx`
/// for the right shift, the highest for the left shift. `Vx` is halved, or
/// doubled modulo 256.
pub proof fn lemma_shifts(m: Machine, x: int, y: int, random: u8)
    requires
        m.wf(),
        m.pc + 1 < MEMORY_SIZE,
        0 <= x < 15,
        0 <= y < 16,
    ensures
        m.step(word_xyn(8, x, y, 6), random) matches Ok(right) && right.v[FLAG as int] == m.v[x]
            % 2 && right.v[x] == m.v[x] / 2,
        m.step(word_xyn(8, x, y, 0xE), random) matches Ok(left) && left.v[FLAG as int] == m.v[x]
            / 128 && left.v[x] == (m.v[x] * 2) % 256,
{
    lemma_fields_of_word(8, x, y, 6);
    lemma_fields_of_word(8, x, y, 0xE);
}

/// Storing `V0..=Vx` with `Fx55` and loading them back with `Fx65` from the
/// same `I` restores them, whatever became of the registers, the program
/// counter and the rest of the machine in between, as long as memory and `I`
/// are as the store left them.
pub proof fn lemma_store_load_round_trip(
    m: Machine,
    between: Machine,
    x: int,
    r1: u8,
    r2: u8,
)
    requires
        m.wf(),
        between.wf(),
        0 <= x < 16,
        m.step(word_xkk(0xF, x, 0x55), r1) matches Ok(stored) && between.memory == stored.memory
            && between.i == stored.i,
        between.pc + 1 < MEMORY_SIZE,
    ensures
        between.step(word_xkk(0xF, x, 0x65), r2) matches Ok(loaded) && (forall|j: int|
            0 <= j <= x ==> loaded.v[j] == m.v[j]) && (forall|j: int|
            x < j < 16 ==> loaded.v[j] == between.v[j]),
{
    lemma_fields_of_word(0xF, x, 5, 5);
    lemma_fields_of_word(0xF, x, 6, 5);
}

/// A store followed at once by the matching load leaves every register as it was.
pub proof fn lemma_store_then_load(m: Machine, x: int, r1: u8, r2: u8)
    requires
        m.wf(),
        0 <= x < 16,
        m.step(word_xkk(0xF, x, 0x55), r1) is Ok,
        m.pc + 3 < MEMORY_SIZE,
    ensures
        m.step(word_xkk(0xF, x, 0x55), r1) matches Ok(stored) && stored.step(
            word_xkk(0xF, x, 0x65),
            r2,
        ) matches Ok(loaded) && loaded.v == m.v,
{
    lemma_fields_of_word(0xF, x, 5, 5);
    lemma_fields_of_word(0xF, x, 6, 5);
    let stored = m.step(word_xkk(0xF, x, 0x55), r1)->Ok_0;
    let loaded = stored.step(word_xkk(0xF, x, 0x65), r2)->Ok_0;
    assert(loaded.v =~= m.v);
}

/// `2nnn` succeeds exactly while fewer than sixteen calls are outstanding. It
/// then continues at `nnn`, and a `00EE` executed at any later point at which
/// the stack is as the call left it continues right behind the call and
/// leaves the stack pointer as it was before the call.
pub proof fn lemma_call_return(m: Machine, later: Machine, nnn: int, r1: u8, r2: u8)
    requires
        m.wf(),
        later.wf(),
        m.pc + 1 < MEMORY_SIZE,
        later.pc + 1 < MEMORY_SIZE,
        0 <= nnn < 4096,
        m.sp < STACK_DEPTH ==> later.sp == m.sp + 1 && later.stack[m.sp as int] == m.pc + 2,
    ensures
        m.sp >= STACK_DEPTH ==> m.step(word_nnn(2, nnn), r1) == Err::<Machine, Fault>(
            Fault::StackOverflow,
        ),
        m.sp < STACK_DEPTH ==> m.step(word_nnn(2, nnn), r1) is Ok && later.step(0x00EE, r2) is Ok,
        m.sp < STACK_DEPTH ==> ({
            let called = m.step(word_nnn(2, nnn), r1)->Ok_0;
            let returned = later.step(0x00EE, r2)->Ok_0;
            &&& called.pc == nnn
            &&& called.sp == m.sp + 1
            &&& called.stack == m.stack.update(m.sp as int, (m.pc + 2) as u16)
            &&& returned.pc == m.pc + 2
            &&& returned.sp == m.sp
            &&& returned.stack == later.stack
        }),
{
    lemma_fields_of_word(2, nnn / 256, (nnn / 16) % 16, nnn % 16);
}

/// `00EE` with no call outstanding is a stack underflow.
pub proof fn lemma_return_needs_call(m: Machine, random: u8)
    requires
        m.wf(),
        m.pc + 1 < MEMORY_SIZE,
        m.sp == 0,
    ensures
        m.step(0x00EE, random) == Err::<Machine, Fault>(Fault::StackUnderflow),
{
}

/// No instruction writes a stack slot below the stack pointer, and none
/// lowers the stack pointer by more than one.
pub proof fn lemma_step_keeps_frames(m: Machine, opcode: u16, random: u8)
    requires
        m.wf(),
    ensures
        m.step(opcode, random) matches Ok(after) ==> after.sp + 1 >= m.sp && forall|j: int|
            0 <= j < m.sp ==> after.stack[j] == m.stack[j],
{
    lemma_fields_in_range(opcode);
}

/// The machine after the instruction words of `code` have been executed one
/// after the other, each with its own random byte, whatever the program
/// counter does in between.
pub open spec fn run(m: Machine, code: Seq<(u16, u8)>) -> Result<Machine, Fault>
    decreases code.len(),
{
    if code.len() == 0 {
        Ok(m)
    } else {
        match run(m, code.drop_last()) {
            Ok(before_last) => before_last.step(code.last().0, code.last().1),
            Err(fault) => Err(fault),
        }
    }
}

/// Nested calls return to their callers. Let `2nnn` be executed with `depth`
/// calls outstanding (`depth < 16`), then any instructions at all, calls and
/// returns among them, during which more than `depth` calls stay outstanding.
/// If the next instruction is a `00EE` with `depth + 1` calls outstanding, it
/// continues right behind the first call, with `depth` calls outstanding.
pub proof fn lemma_nested_calls_return(
    m: Machine,
    nnn: int,
    r1: u8,
    body: Seq<(u16, u8)>,
    r2: u8,
)
    requires
        m.wf(),
        m.pc + 1 < MEMORY_SIZE,
        0 <= nnn < 4096,
        m.sp < STACK_DEPTH,
        forall|k: int|
            0 <= k <= body.len() ==> (#[trigger] run(
                m.step(word_nnn(2, nnn), r1)->Ok_0,
                body.take(k),
            ) matches Ok(inside) && inside.sp > m.sp),
        run(m.step(word_nnn(2, nnn), r1)->Ok_0, body) matches Ok(last) && last.sp == m.sp + 1
            && last.pc + 1 < MEMORY_SIZE,
    ensures
        run(m.step(word_nnn(2, nnn), r1)->Ok_0, body) matches Ok(last) && last.step(0x00EE, r2)
            matches Ok(returned) && returned.pc == m.pc + 2 && returned.sp == m.sp,
{
    lemma_fields_of_word(2, nnn / 256, (nnn / 16) % 16, nnn % 16);
    let called = m.step(word_nnn(2, nnn), r1)->Ok_0;
    lemma_step_keeps_wf(m, word_nnn(2, nnn), r1);
    lemma_body_keeps_frame(called, body, m.sp as int, body.len() as int);
    assert(body.take(body.len() as int) =~= body);
    lemma_call_return(m, run(called, body)->Ok_0, nnn, r1, r2);
}

/// While more than `depth` calls stay outstanding, stack slot `depth` is not written.
proof fn lemma_body_keeps_frame(called: Machine, body: Seq<(u16, u8)>, depth: int, k: int)
    requires
        called.wf(),
        0 <= depth < called.sp,
        0 <= k <= body.len(),
        forall|j: int|
            0 <= j <= body.len() ==> (#[trigger] run(called, body.take(j)) matches Ok(inside)
                && inside.sp > depth),
    ensures
        run(called, body.take(k)) matches Ok(inside) && inside.wf() && inside.stack[depth]
            == called.stack[depth],
    decreases k,
{
    if k == 0 {
        assert(body.take(0).len() == 0);
    } else {
        lemma_body_keeps_frame(called, body, depth, k - 1);
        let prefix = body.take(k);
        assert(prefix.drop_last() =~= body.take(k - 1));
        assert(prefix.last() == body[k - 1]);
        let before_last = run(called, body.take(k - 1))->Ok_0;
        lemma_step_keeps_wf(before_last, body[k - 1].0, body[k - 1].1);
        lemma_step_keeps_frames(before_last, body[k - 1].0, body[k - 1].1);
    }
}

/// `Fx0A` with no key down changes nothing at all, the program counter
/// included; with a key down it puts the highest such key into `Vx` and moves
/// on by one instruction.
pub proof fn lemma_wait_for_key(m: Machine, x: int, random: u8)
    requires
        m.wf(),
        m.pc + 1 < MEMORY_SIZE,
        0 <= x < 16,
    ensures
        (forall|k: int| 0 <= k < 16 ==> !m.keys[k]) ==> m.step(word_xkk(0xF, x, 0x0A), random)
            == Ok::<Machine, Fault>(m),
        forall|k: int|
            0 <= k < 16 && #[trigger] m.keys[k] && (forall|j: int| k < j < 16 ==> !m.keys[j]) ==> ({
                let waited = m.step(word_xkk(0xF, x, 0x0A), random);
                waited is Ok && waited->Ok_0.v[x] == k && waited->Ok_0.pc == m.pc + 2
            }),
{
    lemma_fields_of_word(0xF, x, 0, 0xA);
    lemma_highest_down(m.keys, 16);
}

/// Sprite row `r` lands on screen row `(y + r) mod 32`, and its bit `b`,
/// counted from the most significant, on column `(x + b) mod 64`: that pixel
/// is covered exactly if the bit is set. A pixel that is covered is the
/// landing place of some sprite bit.
pub proof fn lemma_sprite_placement(sprite: Seq<u8>, x: int, y: int)
    requires
        sprite.len() <= 32,
    ensures
        forall|r: int, b: int|
            0 <= r < sprite.len() && 0 <= b < 8 ==> #[trigger] sprite_covers(
                sprite,
                x,
                y,
                (y + r) % 32,
                (x + b) % 64,
            ) == (bit(sprite[r], (7 - b) as nat) == 1),
        forall|row: int, col: int|
            0 <= row < 32 && 0 <= col < 64 && #[trigger] sprite_covers(sprite, x, y, row, col)
                ==> exists|r: int, b: int|
                0 <= r < sprite.len() && 0 <= b < 8 && row == (y + r) % 32 && col == #[trigger] ((x
                    + b) % 64) && bit(#[trigger] sprite[r], (7 - b) as nat) == 1,
{
    assert forall|r: int, b: int| 0 <= r < sprite.len() && 0 <= b < 8 implies #[trigger] sprite_covers(
        sprite,
        x,
        y,
        (y + r) % 32,
        (x + b) % 64,
    ) == (bit(sprite[r], (7 - b) as nat) == 1) by {
        assert(((y + r) % 32 - y) % 32 == r);
        assert(((x + b) % 64 - x) % 64 == b);
    }
    assert forall|row: int, col: int|
        0 <= row < 32 && 0 <= col < 64 && #[trigger] sprite_covers(
            sprite,
            x,
            y,
            row,
            col,
        ) implies exists|r: int, b: int|
        0 <= r < sprite.len() && 0 <= b < 8 && row == (y + r) % 32 && col == #[trigger] ((x + b)
            % 64) && bit(#[trigger] sprite[r], (7 - b) as nat) == 1 by {
        let r = (row - y) % 32;
        let b = (col - x) % 64;
        assert(row == (y + r) % 32);
        assert(col == (x + b) % 64);
    }
}

/// Drawing on a blank screen never reports a collision.
pub proof fn lemma_draw_on_blank(sprite: Seq<u8>, x: int, y: int)
    ensures
        !erases(blank(), sprite, x, y),
{
}

/// Drawing the same sprite twice at the same place gives back the screen as
/// it was. If the first draw lit a pixel, the second reports a collision.
pub proof fn lemma_draw_twice(screen: Seq<bool>, sprite: Seq<u8>, x: int, y: int)
    requires
        screen.len() == PIXEL_COUNT,
    ensures
        drawn(drawn(screen, sprite, x, y), sprite, x, y) == screen,
        (exists|p: int|
            0 <= p < PIXEL_COUNT && !screen[p] && #[trigger] drawn(screen, sprite, x, y)[p])
            ==> erases(drawn(screen, sprite, x, y), sprite, x, y),
{
    assert(drawn(drawn(screen, sprite, x, y), sprite, x, y) =~= screen);
    if exists|p: int|
        0 <= p < PIXEL_COUNT && !screen[p] && #[trigger] drawn(screen, sprite, x, y)[p] {
        let p = choose|p: int|
            0 <= p < PIXEL_COUNT && !screen[p] && #[trigger] drawn(screen, sprite, x, y)[p];
        assert(sprite_covers(sprite, x, y, p / 64, p % 64));
    }
}

/// `Dxyn` executed twice in a row, with `I`, `Vx`, `Vy` and the sprite bytes
/// untouched in between, leaves the screen as it was before the first.
pub proof fn lemma_draw_instruction_twice(m: Machine, x: int, y: int, n: int, r1: u8, r2: u8)
    requires
        m.wf(),
        m.pc + 3 < MEMORY_SIZE,
        0 <= x < 15,
        0 <= y < 15,
        0 <= n < 16,
        m.i + n <= MEMORY_SIZE,
    ensures
        m.step(word_xyn(0xD, x, y, n), r1) matches Ok(once) && once.step(
            word_xyn(0xD, x, y, n),
            r2,
        ) matches Ok(twice) && twice.screen == m.screen,
{
    lemma_fields_of_word(0xD, x, y, n);
    let sprite = m.memory.subrange(m.i as int, m.i + n);
    lemma_draw_twice(m.screen, sprite, m.v[x] as int, m.v[y] as int);
}

} // verus!
