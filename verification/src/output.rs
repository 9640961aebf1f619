//! Output descriptors: volume and equal-power pan, muting, level
//! metering, preset factories and a routing matrix.

use crate::fixed::{
    clamp_i64, clamp_int, mul_frac, mul_frac_int, sat_add, sat_add_int, sqrt_frac, sqrt_int,
    SCALE, SIGNAL_CAP,
};
use crate::module::{set_param_spec, spec_param_value, AudioModule, ModuleType};
use vstd::prelude::*;

verus! {

/// Left gain of the equal-power law: `volume * sqrt(1 - pan)`, with
/// both parameter values clamped into `[0, 1]` first.
pub open spec fn left_gain_spec(volume: int, pan: int) -> int {
    let v = clamp_int(volume, 0, SCALE as int);
    let p = clamp_int(pan, 0, SCALE as int);
    mul_frac_int(v, sqrt_int((SCALE - p) * (SCALE as int)))
}

/// Right gain of the equal-power law: `volume * sqrt(pan)`.
pub open spec fn right_gain_spec(volume: int, pan: int) -> int {
    let v = clamp_int(volume, 0, SCALE as int);
    let p = clamp_int(pan, 0, SCALE as int);
    mul_frac_int(v, sqrt_int(p * (SCALE as int)))
}

impl AudioModule {
    pub fn new_output(name: &str, id: u64) -> (r: AudioModule)
        ensures
            r.wf(),
            r.module_type == ModuleType::Output,
            r.name@ == name@,
            r.id == id,
            r.enabled,
            crate::module::has_factory_params(r),
    {
        AudioModule::new(ModuleType::Output, name, id)
    }

    pub fn set_volume(&mut self, volume: i64)
        requires
            old(self).wf(),
        ensures
            final(self).wf(),
            set_param_spec(*old(self), *final(self), "Volume"@, volume as int),
    {
        self.set_param("Volume", volume);
    }

    pub fn get_volume(&self) -> (r: i64)
        requires
            self.wf(),
        ensures
            r == spec_param_value(self.parameters@, "Volume"@),
    {
        self.get_parameter_value("Volume")
    }

    pub fn set_pan(&mut self, pan: i64)
        requires
            old(self).wf(),
        ensures
            final(self).wf(),
            set_param_spec(*old(self), *final(self), "Pan"@, pan as int),
    {
        self.set_param("Pan", pan);
    }

    pub fn get_pan(&self) -> (r: i64)
        requires
            self.wf(),
        ensures
            r == spec_param_value(self.parameters@, "Pan"@),
    {
        self.get_parameter_value("Pan")
    }

    /// Set the pan from a percentage in units (-100.0 left to +100.0
    /// right).
    pub fn set_pan_percent(&mut self, percent: i64)
        requires
            old(self).wf(),
        ensures
            final(self).wf(),
            set_param_spec(
                *old(self),
                *final(self),
                "Pan"@,
                (clamp_int(percent as int, -100 * (SCALE as int), 100 * (SCALE as int)) + 100 * (
                SCALE as int)) / 200,
            ),
    {
        let clamped: i64 = clamp_i64(percent, -100 * SCALE, 100 * SCALE);
        let shifted: u64 = (clamped + 100 * SCALE) as u64;
        self.set_param("Pan", (shifted / 200) as i64);
    }

    /// The pan as a percentage in units: `(pan - 0.5) * 200`.
    pub fn get_pan_percent(&self) -> (r: i64)
        requires
            self.wf(),
            -SCALE <= spec_param_value(self.parameters@, "Pan"@) <= SCALE,
        ensures
            r == 200 * spec_param_value(self.parameters@, "Pan"@) - 100 * (SCALE as int),
    {
        let pan: i64 = self.get_parameter_value("Pan");
        200 * pan - 100 * SCALE
    }

    pub fn mute(&mut self)
        ensures
            *final(self) == (AudioModule { enabled: false, ..*old(self) }),
    {
        self.enabled = false;
    }

    pub fn unmute(&mut self)
        ensures
            *final(self) == (AudioModule { enabled: true, ..*old(self) }),
    {
        self.enabled = true;
    }

    pub fn toggle_mute(&mut self)
        ensures
            *final(self) == (AudioModule { enabled: !old(self).enabled, ..*old(self) }),
    {
        self.enabled = !self.enabled;
    }

    pub fn is_muted(&self) -> (r: bool)
        ensures
            r == !self.enabled,
    {
        !self.enabled
    }

    /// The stereo gain pair of the equal-power pan law; all zero when
    /// muted.
    pub fn get_stereo_gains(&self) -> (r: (i64, i64))
        requires
            self.wf(),
        ensures
            self.enabled ==> r.0 == left_gain_spec(
                spec_param_value(self.parameters@, "Volume"@),
                spec_param_value(self.parameters@, "Pan"@),
            ) && r.1 == right_gain_spec(
                spec_param_value(self.parameters@, "Volume"@),
                spec_param_value(self.parameters@, "Pan"@),
            ),
            !self.enabled ==> r == (0i64, 0i64),
            0 <= r.0 <= SCALE,
            0 <= r.1 <= SCALE,
    {
        if !self.enabled {
            return (0, 0);
        }
        let volume: i64 = clamp_i64(self.get_parameter_value("Volume"), 0, SCALE);
        let pan: i64 = clamp_i64(self.get_parameter_value("Pan"), 0, SCALE);
        let left_root: i64 = sqrt_frac(SCALE - pan);
        let right_root: i64 = sqrt_frac(pan);
        let left: i64 = mul_frac(volume, left_root);
        let right: i64 = mul_frac(volume, right_root);
        proof {
            crate::fixed::lemma_mul_frac_bound(volume as int, left_root as int, SCALE as int, 1);
            crate::fixed::lemma_mul_frac_bound(volume as int, right_root as int, SCALE as int, 1);
            assert(left >= 0 && right >= 0) by {
                let s = SCALE as int;
                assert((volume as int) * (left_root as int) >= 0) by (nonlinear_arith)
                    requires
                        volume >= 0,
                        left_root >= 0,
                ;
                assert((volume as int) * (right_root as int) >= 0) by (nonlinear_arith)
                    requires
                        volume >= 0,
                        right_root >= 0,
                ;
                vstd::arithmetic::div_mod::lemma_div_pos_is_pos(
                    (volume as int) * (left_root as int),
                    s,
                );
                vstd::arithmetic::div_mod::lemma_div_pos_is_pos(
                    (volume as int) * (right_root as int),
                    s,
                );
            }
        }
        (left, right)
    }

    /// Spread a mono signal over the stereo pair by volume and pan.
    pub fn process_mono_to_stereo(&self, input: i64) -> (r: (i64, i64))
        requires
            self.wf(),
            -SIGNAL_CAP <= input <= SIGNAL_CAP,
        ensures
            self.enabled ==> r.0 == mul_frac_int(
                input as int,
                left_gain_spec(
                    spec_param_value(self.parameters@, "Volume"@),
                    spec_param_value(self.parameters@, "Pan"@),
                ),
            ) && r.1 == mul_frac_int(
                input as int,
                right_gain_spec(
                    spec_param_value(self.parameters@, "Volume"@),
                    spec_param_value(self.parameters@, "Pan"@),
                ),
            ),
            !self.enabled ==> r == (0i64, 0i64),
    {
        let (left_gain, right_gain): (i64, i64) = self.get_stereo_gains();
        if !self.enabled {
            proof {
                crate::fixed::lemma_mul_frac_zero(input as int);
            }
        }
        (mul_frac(input, left_gain), mul_frac(input, right_gain))
    }

    /// Scale a stereo pair by the volume; silent when muted.
    pub fn process_stereo(&self, left: i64, right: i64) -> (r: (i64, i64))
        requires
            self.wf(),
            -SIGNAL_CAP <= left <= SIGNAL_CAP,
            -SIGNAL_CAP <= right <= SIGNAL_CAP,
        ensures
            self.enabled ==> r.0 == mul_frac_int(
                left as int,
                clamp_int(spec_param_value(self.parameters@, "Volume"@), 0, SCALE as int),
            ) && r.1 == mul_frac_int(
                right as int,
                clamp_int(spec_param_value(self.parameters@, "Volume"@), 0, SCALE as int),
            ),
            !self.enabled ==> r == (0i64, 0i64),
    {
        if !self.enabled {
            return (0, 0);
        }
        let volume: i64 = clamp_i64(self.get_parameter_value("Volume"), 0, SCALE);
        (mul_frac(left, volume), mul_frac(right, volume))
    }
}

#[derive(Clone, Copy, PartialEq, Eq, Structural, Debug)]
pub enum OutputType {
    MainOutput,
    AuxSend,
    HeadphoneOut,
    MonitorOut,
    RecordOut,
}

impl OutputType {
    pub fn name(&self) -> (r: &'static str)
        ensures
            r@ == match *self {
                OutputType::MainOutput => "Main Out"@,
                OutputType::AuxSend => "Aux Send"@,
                OutputType::HeadphoneOut => "Headphones"@,
                OutputType::MonitorOut => "Monitor"@,
                OutputType::RecordOut => "Record"@,
            },
    {
        match self {
            OutputType::MainOutput => "Main Out",
            OutputType::AuxSend => "Aux Send",
            OutputType::HeadphoneOut => "Headphones",
            OutputType::MonitorOut => "Monitor",
            OutputType::RecordOut => "Record",
        }
    }

    /// The default volume of each output role, in units.
    pub fn default_volume(&self) -> (r: i64)
        ensures
            r == match *self {
                OutputType::MainOutput => 800_000int,
                OutputType::AuxSend => 0int,
                OutputType::HeadphoneOut => 700_000int,
                OutputType::MonitorOut => 600_000int,
                OutputType::RecordOut => 800_000int,
            },
    {
        match self {
            OutputType::MainOutput => 800_000,
            OutputType::AuxSend => 0,
            OutputType::HeadphoneOut => 700_000,
            OutputType::MonitorOut => 600_000,
            OutputType::RecordOut => 800_000,
        }
    }
}

/// Cap on meter input magnitude: ten full-scale units.
pub const METER_CAP: i64 = 10_000_000;

/// Peak level decay per processed frame: 0.999.
pub open spec fn peak_decay(p: int) -> int {
    p * 999 / 1000
}

/// A level meter fed one stereo frame at a time.  Inputs are clamped
/// to `[-10, 10]` full-scale before metering.
pub struct OutputMeter {
    pub peak_left: i64,
    pub peak_right: i64,
    pub rms_left: i64,
    pub rms_right: i64,
    pub peak_hold_left: i64,
    pub peak_hold_right: i64,
    pub peak_hold_time: i64,
    pub rms_buffer_left: Vec<i64>,
    pub rms_buffer_right: Vec<i64>,
    pub buffer_index: usize,
}

impl OutputMeter {
    /// All stored levels are non-negative and bounded; squared values
    /// are stored in units (value squared over `SCALE`).
    pub open spec fn wf(self) -> bool {
        &&& 0 <= self.peak_left <= METER_CAP
        &&& 0 <= self.peak_right <= METER_CAP
        &&& 0 <= self.rms_left <= METER_CAP
        &&& 0 <= self.rms_right <= METER_CAP
        &&& 0 <= self.peak_hold_left <= METER_CAP
        &&& 0 <= self.peak_hold_right <= METER_CAP
        &&& self.rms_buffer_left@.len() == self.rms_buffer_right@.len()
        &&& 1 <= self.rms_buffer_left@.len() <= 65536
        &&& self.buffer_index < self.rms_buffer_left@.len()
        &&& forall|i: int|
            0 <= i < self.rms_buffer_left@.len() ==> 0 <= #[trigger] self.rms_buffer_left@[i]
                <= 100_000_000
        &&& forall|i: int|
            0 <= i < self.rms_buffer_right@.len() ==> 0 <= #[trigger] self.rms_buffer_right@[i]
                <= 100_000_000
    }

    pub fn new(buffer_size: usize) -> (r: OutputMeter)
        requires
            1 <= buffer_size <= 65536,
        ensures
            r.wf(),
            r.peak_left == 0,
            r.peak_right == 0,
            r.rms_left == 0,
            r.rms_right == 0,
            r.rms_buffer_left@.len() == buffer_size,
    {
        OutputMeter {
            peak_left: 0,
            peak_right: 0,
            rms_left: 0,
            rms_right: 0,
            peak_hold_left: 0,
            peak_hold_right: 0,
            peak_hold_time: 0,
            rms_buffer_left: vec_of_zeros(buffer_size),
            rms_buffer_right: vec_of_zeros(buffer_size),
            buffer_index: 0,
        }
    }

    /// Feed one stereo frame.  Peaks follow the absolute level with a
    /// slow decay, a two-second peak hold is kept, and the RMS window
    /// advances by one slot.
    pub fn process(&mut self, left: i64, right: i64, delta_time: i64)
        requires
            old(self).wf(),
            0 <= delta_time,
        ensures
            final(self).wf(),
            final(self).rms_buffer_left@.len() == old(self).rms_buffer_left@.len(),
            final(self).peak_left == if abs_clamped(left as int) > peak_decay(
                old(self).peak_left as int,
            ) {
                abs_clamped(left as int)
            } else {
                peak_decay(old(self).peak_left as int)
            },
            final(self).peak_right == if abs_clamped(right as int) > peak_decay(
                old(self).peak_right as int,
            ) {
                abs_clamped(right as int)
            } else {
                peak_decay(old(self).peak_right as int)
            },
    {
        let l: i64 = clamp_abs(left);
        let r: i64 = clamp_abs(right);
        let decayed_l: u64 = (self.peak_left as u64) * 999 / 1000;
        let decayed_r: u64 = (self.peak_right as u64) * 999 / 1000;
        proof {
            let pl = self.peak_left as int;
            let pr = self.peak_right as int;
            vstd::arithmetic::div_mod::lemma_div_pos_is_pos(pl * 999, 1000);
            vstd::arithmetic::div_mod::lemma_div_pos_is_pos(pr * 999, 1000);
            assert(pl * 999 <= METER_CAP * 999) by (nonlinear_arith)
                requires
                    pl <= METER_CAP,
            ;
            assert(pr * 999 <= METER_CAP * 999) by (nonlinear_arith)
                requires
                    pr <= METER_CAP,
            ;
            vstd::arithmetic::div_mod::lemma_div_is_ordered(pl * 999, METER_CAP * 999, 1000);
            vstd::arithmetic::div_mod::lemma_div_is_ordered(pr * 999, METER_CAP * 999, 1000);
        }
        self.peak_left = if l > decayed_l as i64 {
            l
        } else {
            decayed_l as i64
        };
        self.peak_right = if r > decayed_r as i64 {
            r
        } else {
            decayed_r as i64
        };
        // peak hold with a two-second timer
        if l > self.peak_hold_left {
            self.peak_hold_left = l;
            self.peak_hold_time = 2 * SCALE;
        }
        if r > self.peak_hold_right {
            self.peak_hold_right = r;
            self.peak_hold_time = 2 * SCALE;
        }
        self.peak_hold_time = if delta_time > self.peak_hold_time {
            0
        } else {
            self.peak_hold_time - delta_time
        };
        if self.peak_hold_time == 0 {
            let held_l: u64 = (self.peak_hold_left as u64) * 95 / 100;
            let held_r: u64 = (self.peak_hold_right as u64) * 95 / 100;
            proof {
                let hl = self.peak_hold_left as int;
                let hr = self.peak_hold_right as int;
                vstd::arithmetic::div_mod::lemma_div_pos_is_pos(hl * 95, 100);
                vstd::arithmetic::div_mod::lemma_div_pos_is_pos(hr * 95, 100);
                assert(hl * 95 <= METER_CAP * 95) by (nonlinear_arith)
                    requires
                        hl <= METER_CAP,
                ;
                assert(hr * 95 <= METER_CAP * 95) by (nonlinear_arith)
                    requires
                        hr <= METER_CAP,
                ;
                vstd::arithmetic::div_mod::lemma_div_is_ordered(hl * 95, METER_CAP * 95, 100);
                vstd::arithmetic::div_mod::lemma_div_is_ordered(hr * 95, METER_CAP * 95, 100);
            }
            self.peak_hold_left = held_l as i64;
            self.peak_hold_right = held_r as i64;
        }
        // RMS window
        let sq_l: i64 = square_units(l);
        let sq_r: i64 = square_units(r);
        let idx: usize = self.buffer_index;
        self.rms_buffer_left[idx] = sq_l;
        self.rms_buffer_right[idx] = sq_r;
        self.buffer_index = (idx + 1) % self.rms_buffer_left.len();
        self.rms_left = rms_of_window(&self.rms_buffer_left);
        self.rms_right = rms_of_window(&self.rms_buffer_right);
    }

    pub fn reset(&mut self)
        requires
            old(self).wf(),
        ensures
            final(self).wf(),
            final(self).peak_left == 0,
            final(self).peak_right == 0,
            final(self).rms_left == 0,
            final(self).rms_right == 0,
            final(self).peak_hold_left == 0,
            final(self).peak_hold_right == 0,
            final(self).buffer_index == 0,
            final(self).rms_buffer_left@.len() == old(self).rms_buffer_left@.len(),
            forall|i: int|
                0 <= i < final(self).rms_buffer_left@.len() ==> final(self).rms_buffer_left@[i] == 0 && final(self).rms_buffer_right@[i] == 0,
    {
        let n: usize = self.rms_buffer_left.len();
        self.peak_left = 0;
        self.peak_right = 0;
        self.rms_left = 0;
        self.rms_right = 0;
        self.peak_hold_left = 0;
        self.peak_hold_right = 0;
        self.peak_hold_time = 0;
        self.rms_buffer_left = vec_of_zeros(n);
        self.rms_buffer_right = vec_of_zeros(n);
        self.buffer_index = 0;
    }

    /// Whether either channel has reached full scale.
    pub fn is_clipping(&self) -> (r: (bool, bool))
        ensures
            r.0 == (self.peak_left >= SCALE),
            r.1 == (self.peak_right >= SCALE),
    {
        (self.peak_left >= SCALE, self.peak_right >= SCALE)
    }
}

/// `|x|` clamped to the meter cap.
pub open spec fn abs_clamped(x: int) -> int {
    let a = if x < 0 {
        -x
    } else {
        x
    };
    if a > METER_CAP {
        METER_CAP as int
    } else {
        a
    }
}

fn clamp_abs(x: i64) -> (r: i64)
    ensures
        r == abs_clamped(x as int),
        0 <= r <= METER_CAP,
{
    let a: i64 = if x < 0 {
        if x == i64::MIN {
            i64::MAX
        } else {
            -x
        }
    } else {
        x
    };
    if a > METER_CAP {
        METER_CAP
    } else {
        a
    }
}

/// `x * x / SCALE`: the square of a level, in units.
fn square_units(x: i64) -> (r: i64)
    requires
        0 <= x <= METER_CAP,
    ensures
        r == (x as int) * (x as int) / (SCALE as int),
        0 <= r <= 100_000_000,
{
    proof {
        assert((x as int) * (x as int) <= METER_CAP * METER_CAP) by (nonlinear_arith)
            requires
                0 <= x <= METER_CAP,
        ;
        assert((x as int) * (x as int) >= 0) by (nonlinear_arith);
        vstd::arithmetic::div_mod::lemma_div_pos_is_pos((x as int) * (x as int), SCALE as int);
        vstd::arithmetic::div_mod::lemma_div_is_ordered(
            (x as int) * (x as int),
            METER_CAP * METER_CAP,
            SCALE as int,
        );
    }
    let sq: u64 = (x as u64) * (x as u64);
    (sq / (SCALE as u64)) as i64
}

/// The mean of the stored squares over the window.
pub open spec fn window_mean(s: Seq<i64>) -> int {
    sum_seq(s) / (s.len() as int)
}

/// The sum of a sequence of stored squares.
pub open spec fn sum_seq(s: Seq<i64>) -> int
    decreases s.len(),
{
    if s.len() == 0 {
        0
    } else {
        sum_seq(s.drop_last()) + s.last()
    }
}

/// Root-mean-square of the window: `sqrt(mean)` scaled back to units.
fn rms_of_window(buf: &Vec<i64>) -> (r: i64)
    requires
        1 <= buf@.len() <= 65536,
        forall|i: int| 0 <= i < buf@.len() ==> 0 <= #[trigger] buf@[i] <= 100_000_000,
    ensures
        r == sqrt_int(window_mean(buf@) * (SCALE as int)),
        0 <= r <= METER_CAP,
{
    let n: usize = buf.len();
    let mut sum: i64 = 0;
    let mut i: usize = 0;
    while i < n
        invariant
            i <= n,
            n == buf@.len(),
            n <= 65536,
            forall|j: int| 0 <= j < buf@.len() ==> 0 <= #[trigger] buf@[j] <= 100_000_000,
            sum == sum_seq(buf@.take(i as int)),
            0 <= sum <= (i as int) * 100_000_000,
        decreases n - i,
    {
        proof {
            assert(buf@.take(i + 1).drop_last() =~= buf@.take(i as int));
            lemma_sum_bound(buf@.take(i as int));
            assert((i as int) * 100_000_000 + 100_000_000 == (i + 1) * 100_000_000)
                by (nonlinear_arith);
            assert((i as int) * 100_000_000 <= 65536 * 100_000_000) by (nonlinear_arith)
                requires
                    i < 65536,
            ;
        }
        sum = sum + buf[i];
        i = i + 1;
    }
    proof {
        assert(buf@.take(n as int) =~= buf@);
        lemma_sum_bound(buf@);
        assert((n as int) * 100_000_000 >= 0) by (nonlinear_arith)
            requires
                n >= 1,
        ;
    }
    let mean: u64 = (sum as u64) / (n as u64);
    proof {
        vstd::arithmetic::div_mod::lemma_div_pos_is_pos(sum as int, n as int);
        assert(sum_seq(buf@) <= (n as int) * 100_000_000);
        assert(window_mean(buf@) <= 100_000_000) by {
            vstd::arithmetic::div_mod::lemma_div_is_ordered(
                sum as int,
                (n as int) * 100_000_000,
                n as int,
            );
            assert((n as int) * 100_000_000 == 100_000_000 * (n as int)) by (nonlinear_arith);
            vstd::arithmetic::div_mod::lemma_div_multiples_vanish(100_000_000, n as int);
        }
    }
    let prod: u64 = mean * (SCALE as u64);
    proof {
        assert((mean as int) * (SCALE as int) <= 100_000_000 * (SCALE as int)) by (nonlinear_arith)
            requires
                0 <= mean <= 100_000_000u64,
        ;
    }
    let root: u64 = crate::fixed::isqrt_u64(prod);
    proof {
        assert(root <= METER_CAP) by (nonlinear_arith)
            requires
                (root as int) * (root as int) <= (mean as int) * (SCALE as int),
                (mean as int) * (SCALE as int) <= 100_000_000 * 1_000_000,
                METER_CAP == 10_000_000i64,
        ;
    }
    root as i64
}

/// The partial sums of stored squares stay within the running bound.
proof fn lemma_sum_bound(s: Seq<i64>)
    requires
        forall|i: int| 0 <= i < s.len() ==> 0 <= #[trigger] s[i] <= 100_000_000,
    ensures
        0 <= sum_seq(s) <= s.len() * 100_000_000,
    decreases s.len(),
{
    if s.len() > 0 {
        lemma_sum_bound(s.drop_last());
        assert((s.len() - 1) * 100_000_000 + 100_000_000 == s.len() * 100_000_000)
            by (nonlinear_arith);
    }
}

/// A vector of `n` zeros.
fn vec_of_zeros(n: usize) -> (r: Vec<i64>)
    ensures
        r@.len() == n,
        forall|i: int| 0 <= i < n ==> r@[i] == 0,
{
    let mut v: Vec<i64> = Vec::new();
    let mut i: usize = 0;
    while i < n
        invariant
            i <= n,
            v@.len() == i,
            forall|j: int| 0 <= j < i ==> v@[j] == 0,
        decreases n - i,
    {
        v.push(0);
        i = i + 1;
    }
    v
}

pub struct OutputPresets;

impl OutputPresets {
    /// The standard main output, centered.
    pub fn main_out() -> (r: AudioModule)
        ensures
            r.wf(),
            r.module_type == ModuleType::Output,
            r.name@ == "Main Out"@,
    {
        let mut output = AudioModule::new_output("Main Out", 0);
        output.set_volume(800_000);
        output.set_pan(500_000);
        output
    }

    /// Headphones, slightly quieter.
    pub fn headphone_out() -> (r: AudioModule)
        ensures
            r.wf(),
            r.module_type == ModuleType::Output,
            r.name@ == "Headphones"@,
    {
        let mut output = AudioModule::new_output("Headphones", 0);
        output.set_volume(700_000);
        output.set_pan(500_000);
        output
    }

    /// Studio monitors.
    pub fn monitor_out() -> (r: AudioModule)
        ensures
            r.wf(),
            r.module_type == ModuleType::Output,
            r.name@ == "Monitors"@,
    {
        let mut output = AudioModule::new_output("Monitors", 0);
        output.set_volume(600_000);
        output.set_pan(500_000);
        output
    }

    /// An aux send that starts silent.
    pub fn aux_send(name: &str) -> (r: AudioModule)
        ensures
            r.wf(),
            r.module_type == ModuleType::Output,
            r.name@ == name@,
    {
        let mut output = AudioModule::new_output(name, 0);
        output.set_volume(0);
        output.set_pan(500_000);
        output
    }

    /// A record tap.
    pub fn record_out() -> (r: AudioModule)
        ensures
            r.wf(),
            r.module_type == ModuleType::Output,
            r.name@ == "Record"@,
    {
        let mut output = AudioModule::new_output("Record", 0);
        output.set_volume(800_000);
        output.set_pan(500_000);
        output
    }

    /// Hard left.
    pub fn left_out() -> (r: AudioModule)
        ensures
            r.wf(),
            r.module_type == ModuleType::Output,
            r.name@ == "Left Out"@,
    {
        let mut output = AudioModule::new_output("Left Out", 0);
        output.set_volume(800_000);
        output.set_pan(0);
        output
    }

    /// Hard right.
    pub fn right_out() -> (r: AudioModule)
        ensures
            r.wf(),
            r.module_type == ModuleType::Output,
            r.name@ == "Right Out"@,
    {
        let mut output = AudioModule::new_output("Right Out", 0);
        output.set_volume(800_000);
        output.set_pan(SCALE);
        output
    }
}

/// A gain matrix routing mono inputs to stereo outputs.
pub struct OutputMatrix {
    pub outputs: Vec<AudioModule>,
    pub routing: Vec<Vec<i64>>,
}

impl OutputMatrix {
    /// Every output is a well-formed module; every routing row has one
    /// gain per output, within `[0, 1]`.
    pub open spec fn wf(self) -> bool {
        &&& forall|i: int| 0 <= i < self.outputs@.len() ==> (#[trigger] self.outputs@[i]).wf()
        &&& forall|i: int|
            0 <= i < self.routing@.len() ==> (#[trigger] self.routing@[i])@.len()
                == self.outputs@.len()
        &&& forall|i: int, j: int|
            0 <= i < self.routing@.len() && 0 <= j < self.routing@[i]@.len() ==> 0 <= (
            #[trigger] self.routing@[i]@[j]) <= SCALE
    }

    pub fn new() -> (r: OutputMatrix)
        ensures
            r.wf(),
            r.outputs@.len() == 0,
            r.routing@.len() == 0,
    {
        OutputMatrix { outputs: Vec::new(), routing: Vec::new() }
    }

    /// Register one more output; existing routes gain a zero column.
    pub fn add_output(&mut self, output: AudioModule)
        requires
            old(self).wf(),
            output.wf(),
        ensures
            final(self).wf(),
            final(self).outputs@.len() == old(self).outputs@.len() + 1,
            final(self).routing@.len() == old(self).routing@.len(),
    {
        self.outputs.push(output);
        let n: usize = self.routing.len();
        let mut i: usize = 0;
        while i < n
            invariant
                i <= n,
                n == self.routing@.len(),
                self.outputs@ == old(self).outputs@.push(output),
                n == old(self).routing@.len(),
                self.outputs@.len() >= 1,
                forall|k: int| 0 <= k < self.outputs@.len() ==> (#[trigger] self.outputs@[k]).wf(),
                forall|k: int|
                    i <= k < n ==> (#[trigger] self.routing@[k])@.len() == self.outputs@.len() - 1,
                forall|k: int|
                    0 <= k < i ==> (#[trigger] self.routing@[k])@.len() == self.outputs@.len(),
                forall|k: int, j: int|
                    0 <= k < n && 0 <= j < self.routing@[k]@.len() ==> 0 <= (
                    #[trigger] self.routing@[k]@[j]) <= SCALE,
            decreases n - i,
        {
            let row = &mut self.routing[i];
            row.push(0);
            i = i + 1;
        }
    }

    /// Register one more input and return its index; its route starts
    /// all zero.
    pub fn add_input(&mut self) -> (r: usize)
        requires
            old(self).wf(),
        ensures
            final(self).wf(),
            r == old(self).routing@.len(),
            final(self).routing@.len() == old(self).routing@.len() + 1,
            final(self).outputs@ == old(self).outputs@,
    {
        let input_index: usize = self.routing.len();
        let row: Vec<i64> = vec_of_zeros_row(self.outputs.len());
        self.routing.push(row);
        input_index
    }

    /// Set the gain from an input to an output, clamped into `[0, 1]`;
    /// out-of-range indices change nothing.
    pub fn set_routing(&mut self, input: usize, output: usize, gain: i64)
        requires
            old(self).wf(),
        ensures
            final(self).wf(),
            final(self).outputs@ == old(self).outputs@,
            final(self).routing@.len() == old(self).routing@.len(),
            input < old(self).routing@.len() && output < old(self).routing@[input as int]@.len()
                ==> final(self).routing@[input as int]@[output as int] == clamp_int(
                gain as int,
                0,
                SCALE as int,
            ),
    {
        if input < self.routing.len() {
            let row = &mut self.routing[input];
            if output < row.len() {
                let clamped: i64 = clamp_i64(gain, 0, SCALE);
                row[output] = clamped;
            }
        }
    }

    /// The gain from an input to an output; 0 for indices out of
    /// range.
    pub fn get_routing(&self, input: usize, output: usize) -> (r: i64)
        requires
            self.wf(),
        ensures
            input < self.routing@.len() && output < self.routing@[input as int]@.len() ==> r
                == self.routing@[input as int]@[output as int],
            !(input < self.routing@.len() && output < self.routing@[input as int]@.len()) ==> r
                == 0,
    {
        if input < self.routing.len() {
            let row = &self.routing[input];
            if output < row.len() {
                row[output]
            } else {
                0
            }
        } else {
            0
        }
    }

    /// Drive every output from the routed inputs: each input is scaled
    /// by its gain, spread by the output's own volume and pan, and the
    /// contributions are summed with saturation.
    pub fn process(&self, inputs: &Vec<i64>) -> (r: Vec<(i64, i64)>)
        requires
            self.wf(),
            forall|i: int| 0 <= i < inputs@.len() ==> -SIGNAL_CAP <= #[trigger] inputs@[i]
                <= SIGNAL_CAP,
        ensures
            r@.len() == self.outputs@.len(),
            forall|j: int|
                0 <= j < r@.len() ==> ((#[trigger] r@[j]).0 as int, r@[j].1 as int)
                    == matrix_cell(
                    self.outputs@[j],
                    row_gains(self.routing@, j),
                    inputs@,
                    inputs@.len() as int,
                ),
    {
        let out_count: usize = self.outputs.len();
        let mut result: Vec<(i64, i64)> = Vec::new();
        let mut j: usize = 0;
        while j < out_count
            invariant
                j <= out_count,
                out_count == self.outputs@.len(),
                self.wf(),
                forall|i: int| 0 <= i < inputs@.len() ==> -SIGNAL_CAP <= #[trigger] inputs@[i]
                    <= SIGNAL_CAP,
                result@.len() == j,
                forall|k: int|
                    0 <= k < j ==> ((#[trigger] result@[k]).0 as int, result@[k].1 as int)
                        == matrix_cell(
                        self.outputs@[k],
                        row_gains(self.routing@, k),
                        inputs@,
                        inputs@.len() as int,
                    ),
            decreases out_count - j,
        {
            let mut left: i64 = 0;
            let mut right: i64 = 0;
            let in_count: usize = inputs.len();
            let mut i: usize = 0;
            while i < in_count
                invariant
                    i <= in_count,
                    j < out_count,
                    out_count == self.outputs@.len(),
                    in_count == inputs@.len(),
                    self.wf(),
                    forall|k: int| 0 <= k < inputs@.len() ==> -SIGNAL_CAP <= #[trigger] inputs@[k]
                        <= SIGNAL_CAP,
                    -SIGNAL_CAP <= left <= SIGNAL_CAP,
                    -SIGNAL_CAP <= right <= SIGNAL_CAP,
                    (left as int, right as int) == matrix_cell(
                        self.outputs@[j as int],
                        row_gains(self.routing@, j as int),
                        inputs@,
                        i as int,
                    ),
                decreases in_count - i,
            {
                let gain: i64 = self.get_routing(i, j);
                if gain > 0 {
                    let scaled: i64 = mul_frac(inputs[i], gain);
                    proof {
                        crate::fixed::lemma_mul_frac_bound(
                            inputs@[i as int] as int,
                            gain as int,
                            SIGNAL_CAP as int,
                            1,
                        );
                    }
                    let (l, r_): (i64, i64) = self.outputs[j].process_mono_to_stereo(scaled);
                    proof {
                        lemma_pan_bounds(self.outputs@[j as int], scaled as int);
                    }
                    left = sat_add(left, l);
                    right = sat_add(right, r_);
                }
                i = i + 1;
            }
            result.push((left, right));
            j = j + 1;
        }
        result
    }
}

/// The gains of one routing column: input `i` to output `j`, 0 when
/// the row is missing or short.
pub open spec fn row_gains(routing: Seq<Vec<i64>>, j: int) -> spec_fn(int) -> int {
    |i: int|
        if 0 <= i < routing.len() && 0 <= j < routing[i]@.len() {
            routing[i]@[j] as int
        } else {
            0
        }
}

/// One output's stereo mix over the first `n` inputs.
pub open spec fn matrix_cell(output: AudioModule, gains: spec_fn(int) -> int, inputs: Seq<i64>, n: int) -> (
    int,
    int,
)
    decreases n,
{
    if n <= 0 {
        (0, 0)
    } else {
        let (l0, r0) = matrix_cell(output, gains, inputs, n - 1);
        let g = gains(n - 1);
        if g > 0 {
            let scaled = mul_frac_int(inputs[n - 1] as int, g);
            if output.enabled {
                let l = mul_frac_int(
                    scaled,
                    left_gain_spec(
                        spec_param_value(output.parameters@, "Volume"@),
                        spec_param_value(output.parameters@, "Pan"@),
                    ),
                );
                let r = mul_frac_int(
                    scaled,
                    right_gain_spec(
                        spec_param_value(output.parameters@, "Volume"@),
                        spec_param_value(output.parameters@, "Pan"@),
                    ),
                );
                (sat_add_int(l0, l), sat_add_int(r0, r))
            } else {
                (sat_add_int(l0, 0), sat_add_int(r0, 0))
            }
        } else {
            (l0, r0)
        }
    }
}

/// What a pan stage hands back stays within one signal cap.
proof fn lemma_pan_bounds(output: AudioModule, input: int)
    requires
        -SIGNAL_CAP <= input <= SIGNAL_CAP,
    ensures
        -SIGNAL_CAP <= mul_frac_int(
            input,
            left_gain_spec(
                spec_param_value(output.parameters@, "Volume"@),
                spec_param_value(output.parameters@, "Pan"@),
            ),
        ) <= SIGNAL_CAP,
        -SIGNAL_CAP <= mul_frac_int(
            input,
            right_gain_spec(
                spec_param_value(output.parameters@, "Volume"@),
                spec_param_value(output.parameters@, "Pan"@),
            ),
        ) <= SIGNAL_CAP,
{
    let vol = spec_param_value(output.parameters@, "Volume"@);
    let pan = spec_param_value(output.parameters@, "Pan"@);
    lemma_gain_in_range(vol, pan);
    crate::fixed::lemma_mul_frac_bound(input, left_gain_spec(vol, pan), SIGNAL_CAP as int, 1);
    crate::fixed::lemma_mul_frac_bound(input, right_gain_spec(vol, pan), SIGNAL_CAP as int, 1);
}

/// Equal-power gains always lie in `[0, 1]`.
pub proof fn lemma_gain_in_range(volume: int, pan: int)
    ensures
        0 <= left_gain_spec(volume, pan) <= SCALE,
        0 <= right_gain_spec(volume, pan) <= SCALE,
{
    let s = SCALE as int;
    let v = clamp_int(volume, 0, s);
    let p = clamp_int(pan, 0, s);
    lemma_sqrt_in_scale((s - p) * s);
    lemma_sqrt_in_scale(p * s);
    crate::fixed::lemma_mul_frac_bound(v, sqrt_int((s - p) * s), s, 1);
    crate::fixed::lemma_mul_frac_bound(v, sqrt_int(p * s), s, 1);
    assert(v * sqrt_int((s - p) * s) >= 0) by (nonlinear_arith)
        requires
            v >= 0,
            sqrt_int((s - p) * s) >= 0,
    ;
    assert(v * sqrt_int(p * s) >= 0) by (nonlinear_arith)
        requires
            v >= 0,
            sqrt_int(p * s) >= 0,
    ;
    vstd::arithmetic::div_mod::lemma_div_pos_is_pos(v * sqrt_int((s - p) * s), s);
    vstd::arithmetic::div_mod::lemma_div_pos_is_pos(v * sqrt_int(p * s), s);
}

/// The square root of a fraction times `SCALE` is at most `SCALE`.
proof fn lemma_sqrt_in_scale(x: int)
    requires
        0 <= x <= (SCALE as int) * (SCALE as int),
    ensures
        0 <= sqrt_int(x) <= SCALE,
{
    let s = SCALE as int;
    assert(exists|q: int| 0 <= q && #[trigger] (q * q) <= x && (q + 1) * (q + 1) > x) by {
        lemma_sqrt_exists(x);
    }
    let r = sqrt_int(x);
    assert(0 <= r && r * r <= x && (r + 1) * (r + 1) > x);
    if r > s {
        assert(r * r > s * s) by (nonlinear_arith)
            requires
                r > s,
                s > 0,
        ;
        assert(false);
    }
}

/// Every non-negative value has an integer square root.
proof fn lemma_sqrt_exists(x: int)
    requires
        0 <= x,
    ensures
        exists|q: int| 0 <= q && #[trigger] (q * q) <= x && (q + 1) * (q + 1) > x,
    decreases x,
{
    if x == 0 {
        let q0: int = 0;
        assert(q0 * q0 == 0 && (q0 + 1) * (q0 + 1) == 1) by (nonlinear_arith)
            requires
                q0 == 0,
        ;
        assert(0 <= q0 && q0 * q0 <= x && (q0 + 1) * (q0 + 1) > x);
    } else {
        lemma_sqrt_exists(x - 1);
        let q = choose|q: int| 0 <= q && #[trigger] (q * q) <= x - 1 && (q + 1) * (q + 1) > x - 1;
        if (q + 1) * (q + 1) > x {
            assert(0 <= q && q * q <= x && (q + 1) * (q + 1) > x);
        } else {
            // (q+1)^2 == x
            assert((q + 1) * (q + 1) <= x);
            assert((q + 2) * (q + 2) > x) by (nonlinear_arith)
                requires
                    (q + 1) * (q + 1) >= x,
                    q >= 0,
            ;
            assert(0 <= q + 1 && (q + 1) * (q + 1) <= x && (q + 2) * (q + 2) > x);
        }
    }
}

/// A fresh all-zero routing row.
fn vec_of_zeros_row(n: usize) -> (r: Vec<i64>)
    ensures
        r@.len() == n,
        forall|i: int| 0 <= i < n ==> r@[i] == 0,
{
    let mut v: Vec<i64> = Vec::new();
    let mut i: usize = 0;
    while i < n
        invariant
            i <= n,
            v@.len() == i,
            forall|j: int| 0 <= j < i ==> v@[j] == 0,
        decreases n - i,
    {
        v.push(0);
        i = i + 1;
    }
    v
}

} // verus!
