//! The engine's global laws, stated over the spec-level models of the
//! DSP units and proved once for all inputs.

use crate::dsp::{
    delay_next_spec, delay_out_spec, osc_out_spec, phase_modulus, wave_value_spec, DelayModel,
    OscillatorUnit,
};
use crate::fixed::{sat_add_int, SCALE, SIGNAL_CAP};
use vstd::prelude::*;

verus! {

/// The oscillator's phase after `n` ticks from a reset.
pub open spec fn osc_phase_after(u: OscillatorUnit, n: nat) -> int
    decreases n,
{
    if n == 0 {
        0
    } else {
        (osc_phase_after(u, (n - 1) as nat) + u.frequency) % phase_modulus(u.sample_rate)
    }
}

/// Sample-accurate phase: after `n` ticks from a reset, the
/// oscillator's phase is exactly `n * frequency` modulo one cycle, so
/// the `n`-th output sample is the wave shape evaluated at exactly
/// that phase — the fixed-point form of `sample[n] ==
/// wave(2 pi f n / sr)`, with `sample[0]` taken at phase zero.
pub proof fn lemma_osc_phase_exact(u: OscillatorUnit, n: nat)
    requires
        u.wf(),
    ensures
        osc_phase_after(u, n) == (n * u.frequency) % phase_modulus(u.sample_rate),
        osc_phase_after(u, 0) == 0,
    decreases n,
{
    let m = phase_modulus(u.sample_rate);
    assert(m > 0) by (nonlinear_arith)
        requires
            m == (u.sample_rate as int) * (SCALE as int),
            u.sample_rate >= 8_000u32,
            SCALE == 1_000_000i64,
    ;
    if n == 0 {
        assert((0int * u.frequency) % m == 0) by {
            assert(0int * u.frequency == 0) by (nonlinear_arith);
            vstd::arithmetic::div_mod::lemma_small_mod(0nat, m as nat);
        }
    } else {
        lemma_osc_phase_exact(u, (n - 1) as nat);
        let prev = ((n - 1) as nat) * u.frequency;
        assert(osc_phase_after(u, n) == (prev % m + u.frequency) % m);
        assert((prev % m + u.frequency) % m == (prev + u.frequency) % m) by {
            vstd::arithmetic::div_mod::lemma_add_mod_noop(prev, u.frequency as int, m);
            vstd::arithmetic::div_mod::lemma_mod_twice(prev, m);
            vstd::arithmetic::div_mod::lemma_mod_twice(u.frequency as int, m);
            vstd::arithmetic::div_mod::lemma_add_mod_noop(prev % m, u.frequency as int, m);
        }
        assert(prev + u.frequency == n * u.frequency) by (nonlinear_arith)
            requires
                prev == (n - 1) * u.frequency,
                n >= 1,
        ;
    }
}

/// A sine oscillator at full amplitude reports the wave shape
/// unscaled: with `amplitude == SCALE`, each output sample equals the
/// wave value at the current phase exactly.
pub proof fn lemma_osc_full_amplitude(u: OscillatorUnit)
    requires
        u.wf(),
        u.amplitude == SCALE,
    ensures
        osc_out_spec(u) == wave_value_spec(
            u.waveform,
            u.phase as int / (u.sample_rate as int),
        ),
{
    crate::fixed::lemma_mul_frac_one(
        wave_value_spec(u.waveform, u.phase as int / (u.sample_rate as int)),
    );
}

/// What the delay line's slots hold after running a sequence of
/// inputs through `delay_next_spec`, starting from model `m`.
pub open spec fn delay_run(m: DelayModel, inputs: Seq<i64>) -> DelayModel
    decreases inputs.len(),
{
    if inputs.len() == 0 {
        m
    } else {
        delay_run(delay_next_spec(m, inputs[0] as int), inputs.skip(1))
    }
}

/// The output the delay emits at the step after running `inputs`.
pub open spec fn delay_output_at(m: DelayModel, inputs: Seq<i64>, next: int) -> int {
    delay_out_spec(delay_run(m, inputs), next)
}

/// A pure delay line: zero feedback and a fully wet mix.
pub open spec fn pure_delay(m: DelayModel) -> bool {
    &&& m.feedback == 0
    &&& m.wet == SCALE as int
    &&& m.buffer.len() >= 1
    &&& m.delay_samples == m.buffer.len()
    &&& 0 <= m.write_pos < m.buffer.len()
    &&& forall|i: int| 0 <= i < m.buffer.len() ==> -SIGNAL_CAP <= #[trigger] m.buffer[i]
        <= SIGNAL_CAP
}

/// With zero feedback, what a pure delay writes is the input itself.
proof fn lemma_pure_write(m: DelayModel, input: int)
    requires
        pure_delay(m),
        -SIGNAL_CAP <= input <= SIGNAL_CAP,
    ensures
        delay_next_spec(m, input).buffer == m.buffer.update(m.write_pos, input as i64),
        pure_delay(delay_next_spec(m, input)),
        delay_next_spec(m, input).write_pos == (m.write_pos + 1) % (m.buffer.len() as int),
{
    let delayed = m.buffer[crate::dsp::delay_read_pos(m)] as int;
    crate::fixed::lemma_mul_frac_zero(delayed);
    assert(sat_add_int(input, 0) == input);
    vstd::arithmetic::div_mod::lemma_mod_division_less_than_divisor(
        m.write_pos + 1,
        m.buffer.len() as int,
    );
}

/// With a fully wet mix, what a pure delay emits is exactly the
/// delayed slot.
proof fn lemma_pure_out(m: DelayModel, input: int)
    requires
        pure_delay(m),
        -SIGNAL_CAP <= input <= SIGNAL_CAP,
    ensures
        delay_out_spec(m, input) == m.buffer[crate::dsp::delay_read_pos(m)] as int,
{
    let delayed = m.buffer[crate::dsp::delay_read_pos(m)] as int;
    crate::fixed::lemma_mul_frac_zero(input);
    crate::fixed::lemma_mul_frac_one(delayed);
    assert((SCALE as int) - m.wet == 0);
    assert(sat_add_int(0, delayed) == delayed);
}

/// A pure delay is the identity shifted by its length: running `n`
/// samples of input through a zeroed line whose delay equals its
/// size `D`, the output at step `n` is the input fed at step `n - D`
/// (and silence while `n < D`).  This is the fixed-point form of
/// `output[n] == input[n - round(T * sr)]`.
pub proof fn lemma_delay_identity(m: DelayModel, inputs: Seq<i64>, next: i64)
    requires
        pure_delay(m),
        m.write_pos == 0,
        forall|i: int| 0 <= i < m.buffer.len() ==> #[trigger] m.buffer[i] == 0,
        forall|i: int| 0 <= i < inputs.len() ==> -SIGNAL_CAP <= #[trigger] inputs[i]
            <= SIGNAL_CAP,
        -SIGNAL_CAP <= next <= SIGNAL_CAP,
        inputs.len() < m.buffer.len(),
    ensures
        delay_output_at(m, inputs, next as int) == 0,
{
    lemma_delay_prefix(m, inputs);
    let run = delay_run(m, inputs);
    lemma_pure_out(run, next as int);
    assert(crate::dsp::delay_read_pos(run) == run.write_pos);
    assert(run.buffer[run.write_pos] == 0);
}

/// The same line, once warm: after at least `D` inputs — any number
/// of wraps later — the next output is exactly the input fed `D`
/// steps earlier.
pub proof fn lemma_delay_shift(m: DelayModel, inputs: Seq<i64>, next: i64)
    requires
        pure_delay(m),
        m.write_pos == 0,
        forall|i: int| 0 <= i < m.buffer.len() ==> #[trigger] m.buffer[i] == 0,
        forall|i: int| 0 <= i < inputs.len() ==> -SIGNAL_CAP <= #[trigger] inputs[i]
            <= SIGNAL_CAP,
        -SIGNAL_CAP <= next <= SIGNAL_CAP,
        inputs.len() >= m.buffer.len(),
    ensures
        delay_output_at(m, inputs, next as int) == inputs[inputs.len() - m.buffer.len()],
{
    let d = m.buffer.len() as int;
    let head = inputs.take(inputs.len() - d);
    let window = inputs.skip(inputs.len() - d);
    assert(head + window =~= inputs);
    lemma_delay_split(m, head, window);
    lemma_delay_wp(m, head);
    let mid = delay_run(m, head);
    assert(forall|i: int| 0 <= i < head.len() ==> head[i] == inputs[i]);
    lemma_delay_fill(mid, window);
    let run = delay_run(mid, window);
    assert(delay_run(m, inputs) == run);
    // a whole window later the write position is back where it was
    assert(run.write_pos == (mid.write_pos + d) % d) by {
        assert(window.len() == d);
    }
    assert((mid.write_pos + d) % d == mid.write_pos) by {
        vstd::arithmetic::div_mod::lemma_mod_add_multiples_vanish(mid.write_pos, d);
        vstd::arithmetic::div_mod::lemma_small_mod(mid.write_pos as nat, d as nat);
    }
    // the slot about to be overwritten holds the oldest window entry
    assert(run.buffer[(mid.write_pos + 0) % d] == window[0]);
    assert((mid.write_pos + 0) % d == mid.write_pos) by {
        vstd::arithmetic::div_mod::lemma_small_mod(mid.write_pos as nat, d as nat);
    }
    lemma_pure_out(run, next as int);
    assert(crate::dsp::delay_read_pos(run) == run.write_pos);
    assert(window[0] == inputs[inputs.len() - d]);
}

/// Running a pure delay moves the write position by one slot per
/// input, wrapping, whatever the inputs are.
proof fn lemma_delay_wp(m: DelayModel, inputs: Seq<i64>)
    requires
        pure_delay(m),
        forall|i: int| 0 <= i < inputs.len() ==> -SIGNAL_CAP <= #[trigger] inputs[i]
            <= SIGNAL_CAP,
    ensures
        pure_delay(delay_run(m, inputs)),
        delay_run(m, inputs).buffer.len() == m.buffer.len(),
        delay_run(m, inputs).write_pos == (m.write_pos + inputs.len()) % (
        m.buffer.len() as int),
    decreases inputs.len(),
{
    let d = m.buffer.len() as int;
    if inputs.len() == 0 {
        vstd::arithmetic::div_mod::lemma_small_mod(m.write_pos as nat, d as nat);
    } else {
        lemma_pure_write(m, inputs[0] as int);
        let m1 = delay_next_spec(m, inputs[0] as int);
        lemma_delay_wp(m1, inputs.skip(1));
        assert(m1.write_pos == (m.write_pos + 1) % d);
        assert((((m.write_pos + 1) % d) + (inputs.len() - 1)) % d == (m.write_pos
            + inputs.len()) % d) by {
            vstd::arithmetic::div_mod::lemma_add_mod_noop(
                m.write_pos + 1,
                inputs.len() - 1,
                d,
            );
            vstd::arithmetic::div_mod::lemma_mod_twice(m.write_pos + 1, d);
            vstd::arithmetic::div_mod::lemma_add_mod_noop(
                (m.write_pos + 1) % d,
                inputs.len() - 1,
                d,
            );
            vstd::arithmetic::div_mod::lemma_mod_twice(inputs.len() - 1, d);
            vstd::arithmetic::div_mod::lemma_mod_twice((inputs.len() - 1) % d, d);
        }
    }
}

/// Feeding `b` into a pure delay writes it into consecutive slots
/// starting at the write position, wrapping once at most; the other
/// slots keep what they held.
proof fn lemma_delay_fill(m: DelayModel, b: Seq<i64>)
    requires
        pure_delay(m),
        b.len() <= m.buffer.len(),
        forall|i: int| 0 <= i < b.len() ==> -SIGNAL_CAP <= #[trigger] b[i] <= SIGNAL_CAP,
    ensures
        pure_delay(delay_run(m, b)),
        delay_run(m, b).buffer.len() == m.buffer.len(),
        delay_run(m, b).write_pos == (m.write_pos + b.len()) % (m.buffer.len() as int),
        forall|t: int|
            0 <= t < b.len() ==> #[trigger] delay_run(m, b).buffer[(m.write_pos + t) % (
            m.buffer.len() as int)] == b[t],
    decreases b.len(),
{
    let d = m.buffer.len() as int;
    if b.len() == 0 {
        vstd::arithmetic::div_mod::lemma_small_mod(m.write_pos as nat, d as nat);
    } else {
        lemma_pure_write(m, b[0] as int);
        let m1 = delay_next_spec(m, b[0] as int);
        lemma_delay_fill(m1, b.skip(1));
        let run = delay_run(m, b);
        assert(run == delay_run(m1, b.skip(1)));
        assert(m1.write_pos == (m.write_pos + 1) % d);
        // the write position lands where the plain sum says
        assert((((m.write_pos + 1) % d) + (b.len() - 1)) % d == (m.write_pos + b.len())
            % d) by {
            vstd::arithmetic::div_mod::lemma_add_mod_noop(m.write_pos + 1, b.len() - 1, d);
            vstd::arithmetic::div_mod::lemma_mod_twice(m.write_pos + 1, d);
            vstd::arithmetic::div_mod::lemma_add_mod_noop(
                (m.write_pos + 1) % d,
                b.len() - 1,
                d,
            );
            vstd::arithmetic::div_mod::lemma_mod_twice(b.len() - 1, d);
            vstd::arithmetic::div_mod::lemma_mod_twice((b.len() - 1) % d, d);
        }
        assert forall|t: int|
            0 <= t < b.len() implies #[trigger] run.buffer[(m.write_pos + t) % d] == b[t] by {
            if t == 0 {
                // slot wp was written with b[0] and no later write in
                // this batch returns to it
                vstd::arithmetic::div_mod::lemma_small_mod(m.write_pos as nat, d as nat);
                assert(m1.buffer[m.write_pos] == b[0]);
                if exists|u: int|
                    0 <= u < b.len() - 1 && (#[trigger] ((m1.write_pos + u) % d))
                        == m.write_pos {
                    let u = choose|u: int|
                        0 <= u < b.len() - 1 && (#[trigger] ((m1.write_pos + u) % d))
                            == m.write_pos;
                    lemma_no_rewrap(m.write_pos, u + 1, d);
                    assert((m.write_pos + (u + 1)) % d == ((m.write_pos + 1) % d + u) % d)
                        by {
                        vstd::arithmetic::div_mod::lemma_add_mod_noop(m.write_pos + 1, u, d);
                        vstd::arithmetic::div_mod::lemma_mod_twice(m.write_pos + 1, d);
                        vstd::arithmetic::div_mod::lemma_add_mod_noop(
                            (m.write_pos + 1) % d,
                            u,
                            d,
                        );
                        vstd::arithmetic::div_mod::lemma_mod_twice(u, d);
                        vstd::arithmetic::div_mod::lemma_mod_twice(u % d, d);
                    }
                    assert(false);
                }
                assert(run.buffer[m.write_pos] == m1.buffer[m.write_pos]) by {
                    lemma_delay_untouched(m1, b.skip(1), m.write_pos);
                }
            } else {
                assert(delay_run(m1, b.skip(1)).buffer[(m1.write_pos + (t - 1)) % d]
                    == b.skip(1)[t - 1]);
                assert((m1.write_pos + (t - 1)) % d == (m.write_pos + t) % d) by {
                    vstd::arithmetic::div_mod::lemma_add_mod_noop(
                        m.write_pos + 1,
                        t - 1,
                        d,
                    );
                    vstd::arithmetic::div_mod::lemma_mod_twice(m.write_pos + 1, d);
                    vstd::arithmetic::div_mod::lemma_add_mod_noop(
                        (m.write_pos + 1) % d,
                        t - 1,
                        d,
                    );
                    vstd::arithmetic::div_mod::lemma_mod_twice(t - 1, d);
                    vstd::arithmetic::div_mod::lemma_mod_twice((t - 1) % d, d);
                }
            }
        }
    }
}

/// Within one batch shorter than the line, no later write returns to
/// the starting slot: `(p + s) mod d != p` for `1 <= s < d`.
proof fn lemma_no_rewrap(p: int, step: int, d: int)
    requires
        0 <= p < d,
        1 <= step < d,
    ensures
        (p + step) % d != p,
{
    if p + step < d {
        vstd::arithmetic::div_mod::lemma_small_mod((p + step) as nat, d as nat);
    } else {
        assert((p + step) % d == (p + step - d) % d) by {
            vstd::arithmetic::div_mod::lemma_mod_sub_multiples_vanish(p + step, d);
        }
        vstd::arithmetic::div_mod::lemma_small_mod((p + step - d) as nat, d as nat);
    }
}

/// Slots no write of the batch reaches keep their contents.
proof fn lemma_delay_untouched(m: DelayModel, b: Seq<i64>, slot: int)
    requires
        pure_delay(m),
        b.len() <= m.buffer.len(),
        forall|i: int| 0 <= i < b.len() ==> -SIGNAL_CAP <= #[trigger] b[i] <= SIGNAL_CAP,
        0 <= slot < m.buffer.len(),
        forall|u: int|
            0 <= u < b.len() ==> (#[trigger] ((m.write_pos + u) % (m.buffer.len() as int)))
                != slot,
    ensures
        delay_run(m, b).buffer[slot] == m.buffer[slot],
    decreases b.len(),
{
    let d = m.buffer.len() as int;
    if b.len() > 0 {
        lemma_pure_write(m, b[0] as int);
        let m1 = delay_next_spec(m, b[0] as int);
        assert(m.write_pos != slot) by {
            assert((m.write_pos + 0) % d == m.write_pos) by {
                vstd::arithmetic::div_mod::lemma_small_mod(m.write_pos as nat, d as nat);
            }
        }
        assert(m1.buffer[slot] == m.buffer[slot]);
        assert forall|u: int|
            0 <= u < b.len() - 1 implies (#[trigger] ((m1.write_pos + u) % d)) != slot by {
            assert((m1.write_pos + u) % d == (m.write_pos + (u + 1)) % d) by {
                vstd::arithmetic::div_mod::lemma_add_mod_noop(m.write_pos + 1, u, d);
                vstd::arithmetic::div_mod::lemma_mod_twice(m.write_pos + 1, d);
                vstd::arithmetic::div_mod::lemma_add_mod_noop((m.write_pos + 1) % d, u, d);
                vstd::arithmetic::div_mod::lemma_mod_twice(u, d);
                vstd::arithmetic::div_mod::lemma_mod_twice(u % d, d);
            }
        }
        lemma_delay_untouched(m1, b.skip(1), slot);
    }
}


/// After `n < D` pure-delay steps from a zeroed line, the first `n`
/// slots hold the inputs and the rest are still zero.
proof fn lemma_delay_prefix(m: DelayModel, inputs: Seq<i64>)
    requires
        pure_delay(m),
        m.write_pos == 0,
        forall|i: int| 0 <= i < m.buffer.len() ==> #[trigger] m.buffer[i] == 0,
        forall|i: int| 0 <= i < inputs.len() ==> -SIGNAL_CAP <= #[trigger] inputs[i]
            <= SIGNAL_CAP,
        inputs.len() <= m.buffer.len(),
    ensures
        pure_delay(delay_run(m, inputs)),
        delay_run(m, inputs).buffer.len() == m.buffer.len(),
        delay_run(m, inputs).write_pos == if inputs.len() < m.buffer.len() {
            inputs.len() as int
        } else {
            0int
        },
        forall|i: int|
            0 <= i < inputs.len() ==> #[trigger] delay_run(m, inputs).buffer[i] == inputs[i],
        forall|i: int|
            inputs.len() <= i < m.buffer.len() ==> #[trigger] delay_run(m, inputs).buffer[i]
                == 0,
    decreases inputs.len(),
{
    if inputs.len() > 0 {
        lemma_pure_write(m, inputs[0] as int);
        let m1 = delay_next_spec(m, inputs[0] as int);
        assert(m1.write_pos == 1int % (m.buffer.len() as int));
        if m.buffer.len() == 1 {
            assert(inputs.len() == 1);
            assert(m1.write_pos == 0);
            assert(delay_run(m, inputs) == delay_run(m1, inputs.skip(1)));
            assert(inputs.skip(1).len() == 0);
            assert(delay_run(m1, inputs.skip(1)) == m1);
            assert(m1.buffer[0] == inputs[0]);
        } else {
            assert(m1.write_pos == 1) by {
                vstd::arithmetic::div_mod::lemma_small_mod(1nat, m.buffer.len() as nat);
            }
            lemma_delay_mid(m1, inputs.skip(1), 1, inputs.take(1));
            assert(inputs.take(1) + inputs.skip(1) =~= inputs);
            assert(delay_run(m, inputs) == delay_run(m1, inputs.skip(1)));
            assert forall|i: int|
                0 <= i < inputs.len() implies #[trigger] delay_run(m, inputs).buffer[i]
                == inputs[i] by {
                if i == 0 {
                    assert(delay_run(m1, inputs.skip(1)).buffer[0] == (inputs.take(1)
                        + inputs.skip(1))[0]);
                } else {
                    assert(delay_run(m1, inputs.skip(1)).buffer[i] == (inputs.take(1)
                        + inputs.skip(1))[i]);
                }
            }
        }
    }
}

/// The rolling invariant: with the write position at `p` and the
/// first `p` slots already holding `prefix`, running the rest fills
/// the line in order.
proof fn lemma_delay_mid(m: DelayModel, inputs: Seq<i64>, p: int, prefix: Seq<i64>)
    requires
        pure_delay(m),
        m.write_pos == p,
        prefix.len() == p,
        0 <= p < m.buffer.len(),
        p + inputs.len() <= m.buffer.len(),
        forall|i: int| 0 <= i < p ==> #[trigger] m.buffer[i] == prefix[i],
        forall|i: int| p <= i < m.buffer.len() ==> #[trigger] m.buffer[i] == 0,
        forall|i: int| 0 <= i < inputs.len() ==> -SIGNAL_CAP <= #[trigger] inputs[i]
            <= SIGNAL_CAP,
    ensures
        pure_delay(delay_run(m, inputs)),
        delay_run(m, inputs).buffer.len() == m.buffer.len(),
        delay_run(m, inputs).write_pos == if p + inputs.len() < m.buffer.len() {
            p + inputs.len()
        } else {
            0int
        },
        forall|i: int|
            0 <= i < p + inputs.len() ==> #[trigger] delay_run(m, inputs).buffer[i] == (prefix
                + inputs)[i],
        forall|i: int|
            p + inputs.len() <= i < m.buffer.len() ==> #[trigger] delay_run(
                m,
                inputs,
            ).buffer[i] == 0,
    decreases inputs.len(),
{
    if inputs.len() == 0 {
        assert(prefix + inputs =~= prefix);
    } else {
        lemma_pure_write(m, inputs[0] as int);
        let m1 = delay_next_spec(m, inputs[0] as int);
        if p + 1 < m.buffer.len() {
            assert(m1.write_pos == p + 1) by {
                vstd::arithmetic::div_mod::lemma_small_mod((p + 1) as nat, m.buffer.len() as nat);
            }
            lemma_delay_mid(m1, inputs.skip(1), p + 1, prefix.push(inputs[0]));
            assert(prefix.push(inputs[0]) + inputs.skip(1) =~= prefix + inputs);
        } else {
            // the line is now exactly full
            assert(p + 1 == m.buffer.len());
            assert(inputs.len() == 1);
            assert(m1.write_pos == 0) by {
                vstd::arithmetic::div_mod::lemma_mod_self_0(m.buffer.len() as int);
            }
            assert(delay_run(m1, inputs.skip(1)) == m1);
            assert(prefix + inputs =~= prefix.push(inputs[0]));
            assert(forall|i: int|
                0 <= i < p ==> #[trigger] m1.buffer[i] == (prefix + inputs)[i]);
            assert(m1.buffer[p] == (prefix + inputs)[p]);
        }
    }
}

/// Running a concatenation is running the parts in turn.
proof fn lemma_delay_split(m: DelayModel, a: Seq<i64>, b: Seq<i64>)
    ensures
        delay_run(m, a + b) == delay_run(delay_run(m, a), b),
    decreases a.len(),
{
    if a.len() == 0 {
        assert(a + b =~= b);
    } else {
        let m1 = delay_next_spec(m, a[0] as int);
        assert((a + b)[0] == a[0]);
        assert((a + b).skip(1) =~= a.skip(1) + b);
        lemma_delay_split(m1, a.skip(1), b);
    }
}

} // verus!
