//! The equal-tempered pitch table: MIDI note numbers to frequencies
//! in fixed-point Hz-units.
//!
//! The lowest octave is tabulated; every octave above doubles exactly,
//! so A4 (MIDI 69) is exactly 440.0.

use vstd::prelude::*;

verus! {

/// `2^k` as a mathematical integer.
pub open spec fn pow2_int(k: nat) -> int
    decreases k,
{
    if k == 0 {
        1
    } else {
        2 * pow2_int((k - 1) as nat)
    }
}

/// Frequency of the bottom-octave pitch class `pc` (MIDI 0..=11), in
/// units: 13.75 Hz at pitch class 9 (the A), the others a tempered
/// semitone apart.
pub open spec fn spec_base_freq(pc: int) -> int {
    if pc == 0 {
        8_175_799
    } else if pc == 1 {
        8_661_957
    } else if pc == 2 {
        9_177_024
    } else if pc == 3 {
        9_722_718
    } else if pc == 4 {
        10_300_861
    } else if pc == 5 {
        10_913_382
    } else if pc == 6 {
        11_562_326
    } else if pc == 7 {
        12_249_857
    } else if pc == 8 {
        12_978_272
    } else if pc == 9 {
        13_750_000
    } else if pc == 10 {
        14_567_618
    } else {
        15_433_853
    }
}

/// Frequency of a MIDI note in units: the bottom-octave value of its
/// pitch class, doubled once per octave.
pub open spec fn spec_midi_freq(n: int) -> int {
    spec_base_freq(n % 12) * pow2_int((n / 12) as nat)
}

/// Frequency of a MIDI note in fixed-point Hz-units.
pub fn midi_to_freq_units(n: u8) -> (r: i64)
    requires
        n <= 127,
    ensures
        r == spec_midi_freq(n as int),
        0 < r <= 16_000_000_000,
{
    let pc: u8 = n % 12;
    let octaves: u8 = n / 12;
    let base: i64 = if pc == 0 {
        8_175_799
    } else if pc == 1 {
        8_661_957
    } else if pc == 2 {
        9_177_024
    } else if pc == 3 {
        9_722_718
    } else if pc == 4 {
        10_300_861
    } else if pc == 5 {
        10_913_382
    } else if pc == 6 {
        11_562_326
    } else if pc == 7 {
        12_249_857
    } else if pc == 8 {
        12_978_272
    } else if pc == 9 {
        13_750_000
    } else if pc == 10 {
        14_567_618
    } else {
        15_433_853
    };
    let mut acc: i64 = base;
    let mut i: u8 = 0;
    assert(octaves <= 10);
    while i < octaves
        invariant
            i <= octaves,
            octaves <= 10,
            base == spec_base_freq(n as int % 12),
            0 < base <= 15_433_853,
            acc == base * pow2_int(i as nat),
        decreases octaves - i,
    {
        proof {
            lemma_pow2_values(i as nat);
            assert(pow2_int((i + 1) as nat) == 2 * pow2_int(i as nat));
            assert(base * pow2_int((i + 1) as nat) == 2 * (base * pow2_int(i as nat)))
                by (nonlinear_arith);
            assert(base * pow2_int(i as nat) <= base * 512) by (nonlinear_arith)
                requires
                    base > 0,
                    0 < pow2_int(i as nat) <= 512,
            ;
        }
        acc = acc * 2;
        i = i + 1;
    }
    proof {
        lemma_pow2_values(octaves as nat);
        assert(acc <= 15_433_853 * 1024) by (nonlinear_arith)
            requires
                acc == base * pow2_int(octaves as nat),
                0 < base <= 15_433_853,
                0 < pow2_int(octaves as nat) <= 1024,
        ;
        assert(acc > 0) by (nonlinear_arith)
            requires
                acc == base * pow2_int(octaves as nat),
                0 < base,
                0 < pow2_int(octaves as nat),
        ;
    }
    acc
}

/// The exact value of `2^k` for each octave count that occurs.
proof fn lemma_pow2_values(k: nat)
    requires
        k <= 10,
    ensures
        0 < pow2_int(k),
        k <= 9 ==> pow2_int(k) <= 512,
        pow2_int(k) <= 1024,
    decreases k,
{
    if k > 0 {
        lemma_pow2_values((k - 1) as nat);
        lemma_pow2_exact(k);
    }
}

/// The exact value of `2^k` for small `k`.
proof fn lemma_pow2_exact(k: nat)
    requires
        k <= 10,
    ensures
        pow2_int(k) == if k == 0 {
            1int
        } else if k == 1 {
            2int
        } else if k == 2 {
            4int
        } else if k == 3 {
            8int
        } else if k == 4 {
            16int
        } else if k == 5 {
            32int
        } else if k == 6 {
            64int
        } else if k == 7 {
            128int
        } else if k == 8 {
            256int
        } else if k == 9 {
            512int
        } else {
            1024int
        },
    decreases k,
{
    if k > 0 {
        lemma_pow2_exact((k - 1) as nat);
    }
}

} // verus!
