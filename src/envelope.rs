//! ADSR envelope generator in fixed point.
//!
//! Levels are integers on the scale `0..=LEVEL_ONE`, where `LEVEL_ONE` is unity
//! gain. Stage times are given in microseconds and the sample rate in hertz, so
//! every per-tick step is an exact integer and the timing of each stage can be
//! stated and proved.
use vstd::prelude::*;
use vstd::arithmetic::div_mod::lemma_fundamental_div_mod;

verus! {

/// Unity gain on the envelope's fixed-point scale (2^30).
pub const LEVEL_ONE: u64 = 1073741824;

pub const MICROS_PER_SECOND: u64 = 1000000;

/// Shortest stage time accepted; shorter requests are raised to it (1 ms).
pub const MIN_STAGE_MICROS: u32 = 1000;

pub const DEFAULT_SAMPLE_RATE: u32 = 44100;

pub const DEFAULT_ATTACK_MICROS: u32 = 10000;

pub const DEFAULT_DECAY_MICROS: u32 = 100000;

/// Seven tenths of full scale, rounded down.
pub const DEFAULT_SUSTAIN: u64 = 751619276;

pub const DEFAULT_RELEASE_MICROS: u32 = 300000;

/// The stages of the envelope's state machine.
#[derive(Debug, Clone, Copy, PartialEq, Eq, Structural)]
pub enum Stage {
    Idle,
    Attack,
    Decay,
    Sustain,
    Release,
}

/// `a / b` rounded up.
pub open spec fn ceil_div(a: nat, b: nat) -> nat {
    if a % b == 0 {
        a / b
    } else {
        a / b + 1
    }
}

/// Per-tick step of a ramp that covers `delta` in `micros` microseconds at
/// `sample_rate` ticks per second, rounded up so the ramp is never late.
pub open spec fn ramp_rate(delta: nat, micros: nat, sample_rate: nat) -> nat {
    ceil_div(delta * (MICROS_PER_SECOND as nat), micros * sample_rate)
}

/// Length of a stage of `micros` microseconds in ticks, rounded up:
/// `ceil(seconds * sample_rate)`.
pub open spec fn stage_ticks(micros: nat, sample_rate: nat) -> nat {
    ceil_div(micros * sample_rate, MICROS_PER_SECOND as nat)
}

/// The tick on which a ramp moving `rate` per tick has covered `distance`:
/// the first tick `j >= 1` with `j * rate >= distance`.
pub open spec fn crossing_tick(distance: nat, rate: nat) -> nat {
    if distance == 0 {
        1
    } else {
        ceil_div(distance, rate)
    }
}

/// Level `elapsed` ticks into a release from `from` that lasts `ticks`
/// ticks: a straight line from `from` down to zero, rounded up.
pub open spec fn release_level(from: nat, elapsed: nat, ticks: nat) -> nat {
    (from - from * elapsed / ticks) as nat
}

/// Mathematical state of an envelope.
pub struct EnvelopeModel {
    pub stage: Stage,
    pub level: nat,
    pub sample_rate: nat,
    pub attack: nat,
    pub decay: nat,
    pub sustain: nat,
    pub release: nat,
    pub attack_rate: nat,
    pub decay_rate: nat,
    /// Level the current release started from.
    pub release_from: nat,
    /// Length of the current release in ticks.
    pub release_ticks: nat,
    /// Ticks of the current release done so far.
    pub release_elapsed: nat,
}

impl EnvelopeModel {
    pub open spec fn wf(self) -> bool {
        &&& self.level <= LEVEL_ONE
        &&& self.sustain <= LEVEL_ONE
        &&& 1 <= self.sample_rate <= u32::MAX
        &&& MIN_STAGE_MICROS <= self.attack <= u32::MAX
        &&& MIN_STAGE_MICROS <= self.decay <= u32::MAX
        &&& MIN_STAGE_MICROS <= self.release <= u32::MAX
        &&& self.stage == Stage::Idle ==> self.level == 0
        &&& self.attack_rate == ramp_rate(LEVEL_ONE as nat, self.attack, self.sample_rate)
        &&& self.decay_rate == ramp_rate(
            (LEVEL_ONE - self.sustain) as nat,
            self.decay,
            self.sample_rate,
        )
        &&& self.release_from <= LEVEL_ONE
        &&& self.release_ticks <= u64::MAX
        &&& self.release_elapsed <= u64::MAX
        &&& self.stage == Stage::Release ==> {
            &&& self.release_ticks == stage_ticks(self.release, self.sample_rate)
            &&& self.release_elapsed < self.release_ticks
            &&& self.level == release_level(
                self.release_from,
                self.release_elapsed,
                self.release_ticks,
            )
        }
    }

    pub open spec fn is_active(self) -> bool {
        self.stage != Stage::Idle
    }

    /// State after `note_on`: the attack restarts from the current level.
    pub open spec fn triggered(self) -> EnvelopeModel {
        EnvelopeModel { stage: Stage::Attack, ..self }
    }

    /// State after `note_off`: an active envelope starts a release from its
    /// current level, lasting the configured release time.
    pub open spec fn released(self) -> EnvelopeModel {
        if self.stage == Stage::Idle {
            self
        } else {
            EnvelopeModel { stage: Stage::Release, ..self.release_started() }
        }
    }

    /// The release bookkeeping for a release that starts now, from the
    /// current level, lasting the current release time.
    pub open spec fn release_started(self) -> EnvelopeModel {
        EnvelopeModel {
            release_from: self.level,
            release_ticks: stage_ticks(self.release, self.sample_rate),
            release_elapsed: 0,
            ..self
        }
    }

    /// A release in progress starts over from the current level, so that it
    /// follows a changed release time or sample rate; in any other stage
    /// nothing changes.
    pub open spec fn release_refreshed(self) -> EnvelopeModel {
        if self.stage == Stage::Release {
            self.release_started()
        } else {
            self
        }
    }

    /// State after `set_sample_rate(sample_rate)`: every step recomputed, and
    /// a release in progress restarted from the current level.
    pub open spec fn with_sample_rate(self, sample_rate: nat) -> EnvelopeModel {
        EnvelopeModel {
            sample_rate,
            attack_rate: ramp_rate(LEVEL_ONE as nat, self.attack, sample_rate),
            decay_rate: ramp_rate((LEVEL_ONE - self.sustain) as nat, self.decay, sample_rate),
            ..self
        }.release_refreshed()
    }

    /// State after `set_attack(micros)`.
    pub open spec fn with_attack(self, micros: nat) -> EnvelopeModel {
        EnvelopeModel {
            attack: clamp_time(micros),
            attack_rate: ramp_rate(LEVEL_ONE as nat, clamp_time(micros), self.sample_rate),
            ..self
        }
    }

    /// State after `set_decay(micros)`.
    pub open spec fn with_decay(self, micros: nat) -> EnvelopeModel {
        EnvelopeModel {
            decay: clamp_time(micros),
            decay_rate: ramp_rate(
                (LEVEL_ONE - self.sustain) as nat,
                clamp_time(micros),
                self.sample_rate,
            ),
            ..self
        }
    }

    /// State after `set_sustain(level)`: the decay step follows the new level.
    pub open spec fn with_sustain(self, level: nat) -> EnvelopeModel {
        EnvelopeModel {
            sustain: clamp_level(level),
            decay_rate: ramp_rate(
                (LEVEL_ONE - clamp_level(level)) as nat,
                self.decay,
                self.sample_rate,
            ),
            ..self
        }
    }

    /// State after `set_release(micros)`: a release in progress restarts from
    /// the current level and lasts the new time.
    pub open spec fn with_release(self, micros: nat) -> EnvelopeModel {
        EnvelopeModel { release: clamp_time(micros), ..self }.release_refreshed()
    }

    /// State after one tick.
    pub open spec fn ticked(self) -> EnvelopeModel {
        match self.stage {
            Stage::Idle => self,
            Stage::Attack => if self.level + self.attack_rate >= LEVEL_ONE {
                EnvelopeModel { stage: Stage::Decay, level: LEVEL_ONE as nat, ..self }
            } else {
                EnvelopeModel { level: self.level + self.attack_rate, ..self }
            },
            Stage::Decay => if self.level - self.decay_rate <= self.sustain {
                EnvelopeModel { stage: Stage::Sustain, level: self.sustain, ..self }
            } else {
                EnvelopeModel { level: (self.level - self.decay_rate) as nat, ..self }
            },
            Stage::Sustain => self,
            Stage::Release => if self.release_from == 0 || self.release_elapsed + 1
                >= self.release_ticks {
                EnvelopeModel {
                    stage: Stage::Idle,
                    level: 0,
                    release_elapsed: self.release_elapsed + 1,
                    ..self
                }
            } else {
                EnvelopeModel {
                    level: release_level(
                        self.release_from,
                        self.release_elapsed + 1,
                        self.release_ticks,
                    ),
                    release_elapsed: self.release_elapsed + 1,
                    ..self
                }
            },
        }
    }

    /// State after `n` ticks.
    pub open spec fn ticks(self, n: nat) -> EnvelopeModel
        decreases n,
    {
        if n == 0 {
            self
        } else {
            self.ticks((n - 1) as nat).ticked()
        }
    }
}

/// State of a new envelope: idle, with the default settings.
pub open spec fn initial_envelope() -> EnvelopeModel {
    EnvelopeModel {
        stage: Stage::Idle,
        level: 0,
        sample_rate: DEFAULT_SAMPLE_RATE as nat,
        attack: DEFAULT_ATTACK_MICROS as nat,
        decay: DEFAULT_DECAY_MICROS as nat,
        sustain: DEFAULT_SUSTAIN as nat,
        release: DEFAULT_RELEASE_MICROS as nat,
        attack_rate: ramp_rate(
            LEVEL_ONE as nat,
            DEFAULT_ATTACK_MICROS as nat,
            DEFAULT_SAMPLE_RATE as nat,
        ),
        decay_rate: ramp_rate(
            (LEVEL_ONE - DEFAULT_SUSTAIN) as nat,
            DEFAULT_DECAY_MICROS as nat,
            DEFAULT_SAMPLE_RATE as nat,
        ),
        release_from: 0,
        release_ticks: 0,
        release_elapsed: 0,
    }
}

/// ADSR envelope: produces a per-sample gain in `0..=LEVEL_ONE`.
#[derive(Debug)]
pub struct Envelope {
    stage: Stage,
    level: u64,
    sample_rate: u32,
    attack: u32,
    decay: u32,
    sustain: u64,
    release: u32,
    attack_rate: u64,
    decay_rate: u64,
    release_from: u64,
    release_ticks: u64,
    release_elapsed: u64,
}

impl View for Envelope {
    type V = EnvelopeModel;

    closed spec fn view(&self) -> EnvelopeModel {
        EnvelopeModel {
            stage: self.stage,
            level: self.level as nat,
            sample_rate: self.sample_rate as nat,
            attack: self.attack as nat,
            decay: self.decay as nat,
            sustain: self.sustain as nat,
            release: self.release as nat,
            attack_rate: self.attack_rate as nat,
            decay_rate: self.decay_rate as nat,
            release_from: self.release_from as nat,
            release_ticks: self.release_ticks as nat,
            release_elapsed: self.release_elapsed as nat,
        }
    }
}

proof fn lemma_ceil_div(a: nat, b: nat)
    requires
        b > 0,
    ensures
        ceil_div(a, b) * b >= a,
        ceil_div(a, b) > 0 ==> (ceil_div(a, b) - 1) * b < a,
        a > 0 ==> ceil_div(a, b) > 0,
{
    lemma_fundamental_div_mod(a as int, b as int);
    let q = a / b;
    let m = a % b;
    if m == 0 {
        assert(q * b == a) by (nonlinear_arith)
            requires
                a == b * q + m,
                m == 0,
        ;
        if q > 0 {
            assert((q - 1) * b < a) by (nonlinear_arith)
                requires
                    q * b == a,
                    b > 0,
            ;
        }
    } else {
        assert((q + 1) * b >= a && q * b < a) by (nonlinear_arith)
            requires
                a == b * q + m,
                0 < m < b,
        ;
    }
}

/// If `c` steps of `rate` cover `distance`, the crossing happens by step `c`.
proof fn lemma_crossing_at_most(distance: nat, rate: nat, c: nat)
    requires
        rate > 0,
        c >= 1,
        c * rate >= distance,
    ensures
        crossing_tick(distance, rate) <= c,
        crossing_tick(distance, rate) >= 1,
        (crossing_tick(distance, rate) - 1) * rate < distance || distance == 0,
        crossing_tick(distance, rate) * rate >= distance,
{
    lemma_ceil_div(distance, rate);
    if distance > 0 {
        let q = ceil_div(distance, rate);
        if q > c {
            assert((q - 1) * rate >= c * rate) by (nonlinear_arith)
                requires
                    q - 1 >= c,
                    rate > 0,
            ;
        }
    }
}

/// A ramp stepped at `ramp_rate(full, ..)` covers any distance up to `full`
/// within the stage's tick count.
proof fn lemma_ramp_in_time(distance: nat, full: nat, micros: nat, sample_rate: nat)
    requires
        distance <= full,
        full > 0,
        micros >= MIN_STAGE_MICROS,
        sample_rate >= 1,
    ensures
        ramp_rate(full, micros, sample_rate) > 0,
        crossing_tick(distance, ramp_rate(full, micros, sample_rate)) <= stage_ticks(
            micros,
            sample_rate,
        ),
        crossing_tick(distance, ramp_rate(full, micros, sample_rate)) >= 1,
        crossing_tick(distance, ramp_rate(full, micros, sample_rate)) * ramp_rate(
            full,
            micros,
            sample_rate,
        ) >= distance,
        distance > 0 ==> (crossing_tick(distance, ramp_rate(full, micros, sample_rate)) - 1)
            * ramp_rate(full, micros, sample_rate) < distance,
{
    let m = MICROS_PER_SECOND as nat;
    let s = micros * sample_rate;
    assert(s >= 1000) by (nonlinear_arith)
        requires
            micros >= 1000,
            sample_rate >= 1,
            s == micros * sample_rate,
    ;
    assert(full * m > 0) by (nonlinear_arith)
        requires
            full > 0,
            m > 0,
    ;
    let r = ramp_rate(full, micros, sample_rate);
    let c = stage_ticks(micros, sample_rate);
    lemma_ceil_div(full * m, s);
    lemma_ceil_div(s, m);
    assert(r * c >= distance) by (nonlinear_arith)
        requires
            r * s >= full * m,
            c * m >= s,
            m > 0,
            s > 0,
            distance <= full,
    ;
    lemma_crossing_at_most(distance, r, c);
}

/// Attack phase: while the ramp has not reached full scale, each tick adds
/// the attack step and nothing else changes.
proof fn lemma_attack_prefix(s: EnvelopeModel, j: nat)
    requires
        s.stage == Stage::Attack,
        s.level + j * s.attack_rate < LEVEL_ONE,
    ensures
        s.ticks(j) == (EnvelopeModel { level: s.level + j * s.attack_rate, ..s }),
    decreases j,
{
    if j > 0 {
        assert((j - 1) * s.attack_rate <= j * s.attack_rate) by (nonlinear_arith);
        assert(j * s.attack_rate == (j - 1) * s.attack_rate + s.attack_rate) by (nonlinear_arith);
        lemma_attack_prefix(s, (j - 1) as nat);
        let prev = s.ticks((j - 1) as nat);
        assert(s.ticks(j) == prev.ticked());
        assert(prev.level + prev.attack_rate == s.level + j * s.attack_rate);
    } else {
        assert(j * s.attack_rate == 0) by (nonlinear_arith)
            requires
                j == 0,
        ;
    }
}

/// Decay phase: while the level stays above the sustain level, each tick
/// subtracts the decay step and nothing else changes.
proof fn lemma_decay_prefix(s: EnvelopeModel, j: nat)
    requires
        s.stage == Stage::Decay,
        s.level - j * s.decay_rate > s.sustain,
    ensures
        s.ticks(j) == (EnvelopeModel { level: (s.level - j * s.decay_rate) as nat, ..s }),
    decreases j,
{
    if j > 0 {
        assert((j - 1) * s.decay_rate <= j * s.decay_rate) by (nonlinear_arith);
        assert(j * s.decay_rate == (j - 1) * s.decay_rate + s.decay_rate) by (nonlinear_arith);
        lemma_decay_prefix(s, (j - 1) as nat);
        let prev = s.ticks((j - 1) as nat);
        assert(s.ticks(j) == prev.ticked());
        assert(prev.level - prev.decay_rate == s.level - j * s.decay_rate);
    } else {
        assert(j * s.decay_rate == 0) by (nonlinear_arith)
            requires
                j == 0,
        ;
    }
}

/// Facts about the release line: it starts at `from`, never rises, and stays
/// above zero before its last tick when `from` is positive.
proof fn lemma_release_level(from: nat, j: nat, n: nat)
    requires
        n > 0,
        j <= n,
    ensures
        release_level(from, 0, n) == from,
        release_level(from, j, n) <= from,
        from * j / n <= from,
        j < n && from > 0 ==> release_level(from, j, n) > 0,
        j < n ==> release_level(from, j + 1, n) <= release_level(from, j, n),
{
    assert(from * 0 == 0) by (nonlinear_arith);
    assert(from * j <= from * n) by (nonlinear_arith)
        requires
            j <= n,
    ;
    assert(from * j / n <= from) by (nonlinear_arith)
        requires
            from * j <= from * n,
            n > 0,
    ;
    if j < n && from > 0 {
        assert(from * j < from * n) by (nonlinear_arith)
            requires
                j < n,
                from > 0,
        ;
        assert(from * j / n < from) by (nonlinear_arith)
            requires
                from * j < from * n,
                n > 0,
        ;
    }
    if j < n {
        assert(from * j <= from * (j + 1)) by (nonlinear_arith);
        assert(from * (j + 1) <= from * n) by (nonlinear_arith)
            requires
                j + 1 <= n,
        ;
        assert(from * j / n <= from * (j + 1) / n) by (nonlinear_arith)
            requires
                from * j <= from * (j + 1),
                n > 0,
        ;
        assert(from * (j + 1) / n <= from) by (nonlinear_arith)
            requires
                from * (j + 1) <= from * n,
                n > 0,
        ;
    }
}

/// Every stage lasts at least one tick.
proof fn lemma_stage_ticks_positive(micros: nat, sample_rate: nat)
    requires
        micros >= 1,
        sample_rate >= 1,
    ensures
        stage_ticks(micros, sample_rate) >= 1,
{
    assert(micros * sample_rate >= 1) by (nonlinear_arith)
        requires
            micros >= 1,
            sample_rate >= 1,
    ;
    lemma_ceil_div(micros * sample_rate, MICROS_PER_SECOND as nat);
}

/// Release phase: before the last tick of a release from a positive level,
/// each tick moves one step along the release line and nothing else changes.
proof fn lemma_release_prefix(e: EnvelopeModel, j: nat)
    requires
        e.stage == Stage::Release,
        e.release_elapsed == 0,
        e.release_from > 0,
        e.release_ticks > 0,
        e.level == e.release_from,
        j < e.release_ticks,
    ensures
        e.ticks(j) == (EnvelopeModel {
            level: release_level(e.release_from, j, e.release_ticks),
            release_elapsed: j,
            ..e
        }),
    decreases j,
{
    lemma_release_level(e.release_from, 0, e.release_ticks);
    if j > 0 {
        lemma_release_prefix(e, (j - 1) as nat);
        assert(e.ticks(j) == e.ticks((j - 1) as nat).ticked());
    }
}

/// `ramp_rate` computed on machine integers.
fn ramp_step(delta: u64, micros: u32, sample_rate: u32) -> (r: u64)
    requires
        delta <= LEVEL_ONE,
        micros >= 1,
        sample_rate >= 1,
    ensures
        r as nat == ramp_rate(delta as nat, micros as nat, sample_rate as nat),
{
    assert(delta * MICROS_PER_SECOND <= LEVEL_ONE * MICROS_PER_SECOND) by (nonlinear_arith)
        requires
            delta <= LEVEL_ONE,
    ;
    let num: u64 = delta * MICROS_PER_SECOND;
    assert((micros as u64) * (sample_rate as u64) <= (u32::MAX as u64) * (u32::MAX as u64))
        by (nonlinear_arith)
        requires
            micros <= u32::MAX,
            sample_rate <= u32::MAX,
    ;
    assert((micros as u64) * (sample_rate as u64) >= 1) by (nonlinear_arith)
        requires
            micros >= 1,
            sample_rate >= 1,
    ;
    let den: u64 = (micros as u64) * (sample_rate as u64);
    let q: u64 = num / den;
    if num % den == 0 {
        q
    } else {
        q + 1
    }
}

/// `stage_ticks` computed on machine integers.
fn stage_ticks_exec(micros: u32, sample_rate: u32) -> (r: u64)
    requires
        micros >= 1,
        sample_rate >= 1,
    ensures
        r as nat == stage_ticks(micros as nat, sample_rate as nat),
        r >= 1,
{
    proof {
        lemma_stage_ticks_positive(micros as nat, sample_rate as nat);
    }
    assert((micros as u64) * (sample_rate as u64) <= (u32::MAX as u64) * (u32::MAX as u64))
        by (nonlinear_arith)
        requires
            micros <= u32::MAX,
            sample_rate <= u32::MAX,
    ;
    let total: u64 = (micros as u64) * (sample_rate as u64);
    let q: u64 = total / MICROS_PER_SECOND;
    if total % MICROS_PER_SECOND == 0 {
        q
    } else {
        q + 1
    }
}

/// `release_level` computed on machine integers.
fn release_level_exec(from: u64, elapsed: u64, ticks: u64) -> (r: u64)
    requires
        from <= LEVEL_ONE,
        elapsed < ticks,
    ensures
        r as nat == release_level(from as nat, elapsed as nat, ticks as nat),
{
    proof {
        lemma_release_level(from as nat, elapsed as nat, ticks as nat);
    }
    assert((from as u128) * (elapsed as u128) <= (LEVEL_ONE as u128) * (u64::MAX as u128))
        by (nonlinear_arith)
        requires
            from <= LEVEL_ONE,
            elapsed <= u64::MAX,
    ;
    let drop: u128 = (from as u128) * (elapsed as u128) / (ticks as u128);
    from - drop as u64
}

impl Envelope {
    /// A silent envelope with the default settings: 44100 Hz, 10 ms attack,
    /// 100 ms decay, sustain at seven tenths, 300 ms release.
    pub fn new() -> (e: Envelope)
        ensures
            e@.wf(),
            e@ == initial_envelope(),
    {
        let mut env = Envelope {
            stage: Stage::Idle,
            level: 0,
            sample_rate: DEFAULT_SAMPLE_RATE,
            attack: DEFAULT_ATTACK_MICROS,
            decay: DEFAULT_DECAY_MICROS,
            sustain: DEFAULT_SUSTAIN,
            release: DEFAULT_RELEASE_MICROS,
            attack_rate: 0,
            decay_rate: 0,
            release_from: 0,
            release_ticks: 0,
            release_elapsed: 0,
        };
        env.recalculate_rates();
        env
    }

    /// Sets the sample rate and recomputes every per-tick step; a release in
    /// progress restarts from the current level.
    pub fn set_sample_rate(&mut self, sample_rate: u32)
        requires
            old(self)@.wf(),
            sample_rate >= 1,
        ensures
            final(self)@.wf(),
            final(self)@ == old(self)@.with_sample_rate(sample_rate as nat),
    {
        self.sample_rate = sample_rate;
        self.recalculate_rates();
        if self.stage == Stage::Release {
            self.start_release();
        }
    }

    /// Sets the attack time, raised to at least `MIN_STAGE_MICROS`.
    pub fn set_attack(&mut self, micros: u32)
        requires
            old(self)@.wf(),
        ensures
            final(self)@.wf(),
            final(self)@ == old(self)@.with_attack(micros as nat),
    {
        self.attack = if micros < MIN_STAGE_MICROS {
            MIN_STAGE_MICROS
        } else {
            micros
        };
        self.attack_rate = ramp_step(LEVEL_ONE, self.attack, self.sample_rate);
    }

    /// Sets the decay time, raised to at least `MIN_STAGE_MICROS`.
    pub fn set_decay(&mut self, micros: u32)
        requires
            old(self)@.wf(),
        ensures
            final(self)@.wf(),
            final(self)@ == old(self)@.with_decay(micros as nat),
    {
        self.decay = if micros < MIN_STAGE_MICROS {
            MIN_STAGE_MICROS
        } else {
            micros
        };
        self.decay_rate = ramp_step(LEVEL_ONE - self.sustain, self.decay, self.sample_rate);
    }

    /// Sets the sustain level, clamped to full scale; the decay step is
    /// recomputed so that a decay in progress lands on the new level.
    pub fn set_sustain(&mut self, level: u64)
        requires
            old(self)@.wf(),
        ensures
            final(self)@.wf(),
            final(self)@ == old(self)@.with_sustain(level as nat),
    {
        self.sustain = if level > LEVEL_ONE {
            LEVEL_ONE
        } else {
            level
        };
        self.decay_rate = ramp_step(LEVEL_ONE - self.sustain, self.decay, self.sample_rate);
    }

    /// Sets the release time, raised to at least `MIN_STAGE_MICROS`; a release
    /// in progress restarts from the current level and lasts the new time.
    pub fn set_release(&mut self, micros: u32)
        requires
            old(self)@.wf(),
        ensures
            final(self)@.wf(),
            final(self)@ == old(self)@.with_release(micros as nat),
    {
        self.release = if micros < MIN_STAGE_MICROS {
            MIN_STAGE_MICROS
        } else {
            micros
        };
        if self.stage == Stage::Release {
            self.start_release();
        }
    }

    /// Starts (or restarts) the attack from the current level.
    pub fn note_on(&mut self)
        requires
            old(self)@.wf(),
        ensures
            final(self)@.wf(),
            final(self)@ == old(self)@.triggered(),
    {
        self.stage = Stage::Attack;
    }

    /// Enters the release unless idle. The release runs in a straight line
    /// from the current level to zero and lasts the configured release time,
    /// whatever that level is.
    pub fn note_off(&mut self)
        requires
            old(self)@.wf(),
        ensures
            final(self)@.wf(),
            final(self)@ == old(self)@.released(),
    {
        if self.stage != Stage::Idle {
            self.start_release();
            self.stage = Stage::Release;
        }
    }

    pub fn is_active(&self) -> (r: bool)
        ensures
            r == self@.is_active(),
    {
        self.stage != Stage::Idle
    }

    /// Advances one sample and returns the new level.
    pub fn tick(&mut self) -> (r: u64)
        requires
            old(self)@.wf(),
        ensures
            final(self)@.wf(),
            final(self)@ == old(self)@.ticked(),
            r == final(self)@.level,
    {
        match self.stage {
            Stage::Idle => 0,
            Stage::Attack => {
                if self.attack_rate >= LEVEL_ONE - self.level {
                    self.level = LEVEL_ONE;
                    self.stage = Stage::Decay;
                } else {
                    self.level = self.level + self.attack_rate;
                }
                self.level
            },
            Stage::Decay => {
                if self.level <= self.sustain || self.level - self.sustain <= self.decay_rate {
                    self.level = self.sustain;
                    self.stage = Stage::Sustain;
                } else {
                    self.level = self.level - self.decay_rate;
                }
                self.level
            },
            Stage::Sustain => self.level,
            Stage::Release => {
                proof {
                    lemma_release_level(
                        self.release_from as nat,
                        self.release_elapsed as nat,
                        self.release_ticks as nat,
                    );
                }
                let elapsed = self.release_elapsed + 1;
                self.release_elapsed = elapsed;
                if self.release_from == 0 || elapsed >= self.release_ticks {
                    self.level = 0;
                    self.stage = Stage::Idle;
                } else {
                    self.level = release_level_exec(self.release_from, elapsed, self.release_ticks);
                    proof {
                        lemma_release_level(
                            self.release_from as nat,
                            elapsed as nat,
                            self.release_ticks as nat,
                        );
                    }
                }
                self.level
            },
        }
    }

    fn recalculate_rates(&mut self)
        requires
            old(self).level <= LEVEL_ONE,
            old(self).sustain <= LEVEL_ONE,
            old(self).sample_rate >= 1,
            old(self).attack >= MIN_STAGE_MICROS,
            old(self).decay >= MIN_STAGE_MICROS,
            old(self).release >= MIN_STAGE_MICROS,
            old(self).stage == Stage::Idle ==> old(self).level == 0,
        ensures
            final(self)@ == (EnvelopeModel {
                attack_rate: ramp_rate(
                    LEVEL_ONE as nat,
                    old(self)@.attack,
                    old(self)@.sample_rate,
                ),
                decay_rate: ramp_rate(
                    (LEVEL_ONE - old(self)@.sustain) as nat,
                    old(self)@.decay,
                    old(self)@.sample_rate,
                ),
                ..old(self)@
            }),
    {
        self.attack_rate = ramp_step(LEVEL_ONE, self.attack, self.sample_rate);
        self.decay_rate = ramp_step(LEVEL_ONE - self.sustain, self.decay, self.sample_rate);
    }

    /// Starts the release bookkeeping from the current level.
    fn start_release(&mut self)
        requires
            old(self).level <= LEVEL_ONE,
            old(self).sample_rate >= 1,
            old(self).release >= MIN_STAGE_MICROS,
        ensures
            final(self)@ == old(self)@.release_started(),
            final(self)@.release_elapsed < final(self)@.release_ticks,
            final(self)@.level == release_level(
                final(self)@.release_from,
                final(self)@.release_elapsed,
                final(self)@.release_ticks,
            ),
    {
        self.release_from = self.level;
        self.release_ticks = stage_ticks_exec(self.release, self.sample_rate);
        self.release_elapsed = 0;
        proof {
            lemma_release_level(self.level as nat, 0, self.release_ticks as nat);
        }
    }
}

/// A stage time as stored: at least `MIN_STAGE_MICROS`.
pub open spec fn clamp_time(micros: nat) -> nat {
    if micros < MIN_STAGE_MICROS {
        MIN_STAGE_MICROS as nat
    } else {
        micros
    }
}

/// A level as stored: at most `LEVEL_ONE`.
pub open spec fn clamp_level(level: nat) -> nat {
    if level > LEVEL_ONE {
        LEVEL_ONE as nat
    } else {
        level
    }
}


/// An idle envelope stays idle and silent however many times it is ticked.
pub proof fn lemma_idle_stays_silent(s: EnvelopeModel, n: nat)
    requires
        s.wf(),
        !s.is_active(),
    ensures
        s.ticks(n) == s,
        s.ticks(n).level == 0,
        !s.ticks(n).is_active(),
    decreases n,
{
    if n > 0 {
        lemma_idle_stays_silent(s, (n - 1) as nat);
    }
}

/// After `note_on`, the level rises without ever falling and reaches full
/// scale, entering the decay, within the attack time rounded up to whole ticks.
#[verifier::rlimit(40)]
pub proof fn lemma_attack_reaches_full(s: EnvelopeModel)
    requires
        s.wf(),
    ensures
        ({
            let a = s.triggered();
            let k = crossing_tick((LEVEL_ONE - s.level) as nat, s.attack_rate);
            &&& 1 <= k <= stage_ticks(s.attack, s.sample_rate)
            &&& a.ticks(k) == (EnvelopeModel { stage: Stage::Decay, level: LEVEL_ONE as nat, ..s })
            &&& a.ticks(k).wf()
            &&& forall|j: nat|
                j < k ==> (#[trigger] a.ticks(j)).stage == Stage::Attack && a.ticks(j).level
                    <= a.ticks(j + 1).level
        }),
{
    let a = s.triggered();
    let r = s.attack_rate;
    let d = (LEVEL_ONE - s.level) as nat;
    let k = crossing_tick(d, r);
    lemma_ramp_in_time(d, LEVEL_ONE as nat, s.attack, s.sample_rate);
    assert forall|j: nat| j < k implies (#[trigger] a.ticks(j)).stage == Stage::Attack
        && a.ticks(j).level <= a.ticks(j + 1).level by {
        lemma_attack_step(a, j, k);
    }
    if d > 0 {
        lemma_attack_prefix(a, (k - 1) as nat);
        assert(k * r == (k - 1) * r + r) by (nonlinear_arith);
    }
    assert(a.ticks(k) == a.ticks((k - 1) as nat).ticked());
}

proof fn lemma_attack_step(a: EnvelopeModel, j: nat, k: nat)
    requires
        a.stage == Stage::Attack,
        a.attack_rate > 0,
        k == crossing_tick((LEVEL_ONE - a.level) as nat, a.attack_rate),
        a.level <= LEVEL_ONE,
        LEVEL_ONE - a.level > 0 ==> (k - 1) * a.attack_rate < LEVEL_ONE - a.level,
        k >= 1,
        j < k,
    ensures
        a.ticks(j).stage == Stage::Attack,
        a.ticks(j).level <= a.ticks(j + 1).level,
{
    let r = a.attack_rate;
    assert(j * r <= (k - 1) * r) by (nonlinear_arith)
        requires
            j <= k - 1,
    ;
    if a.level < LEVEL_ONE {
        lemma_attack_prefix(a, j);
    } else {
        assert(j == 0);
        assert(a.ticks(0) == a);
    }
    assert(a.ticks(j + 1) == a.ticks(j).ticked());
}

/// In the decay, the level reaches the sustain level, entering the sustain,
/// within the decay time rounded up to whole ticks; until then it stays in
/// the decay, above the sustain level, and (from at or above the sustain
/// level) never rises.
#[verifier::rlimit(60)]
pub proof fn lemma_decay_reaches_sustain(s: EnvelopeModel)
    requires
        s.wf(),
        s.stage == Stage::Decay,
    ensures
        ({
            let k = crossing_tick(
                (if s.level > s.sustain { s.level - s.sustain } else { 0 }) as nat,
                s.decay_rate,
            );
            &&& 1 <= k <= stage_ticks(s.decay, s.sample_rate)
            &&& s.ticks(k) == (EnvelopeModel { stage: Stage::Sustain, level: s.sustain, ..s })
            &&& s.ticks(k).wf()
            &&& forall|j: nat|
                0 < j < k ==> (#[trigger] s.ticks(j)).stage == Stage::Decay && s.ticks(j).level
                    > s.sustain
            &&& s.level >= s.sustain ==> forall|j: nat|
                j < k ==> (#[trigger] s.ticks(j)).level >= s.ticks(j + 1).level
        }),
{
    let r = s.decay_rate;
    let k0 = crossing_tick(
        (if s.level > s.sustain { s.level - s.sustain } else { 0 }) as nat,
        s.decay_rate,
    );
    if s.level > s.sustain {
        lemma_ramp_in_time(
            (s.level - s.sustain) as nat,
            (LEVEL_ONE - s.sustain) as nat,
            s.decay,
            s.sample_rate,
        );
    } else {
        lemma_ramp_in_time(0, LEVEL_ONE as nat, s.decay, s.sample_rate);
    }
    assert forall|j: nat| 0 < j < k0 implies (#[trigger] s.ticks(j)).stage == Stage::Decay
        && s.ticks(j).level > s.sustain by {
        lemma_decay_step(s, j, k0);
    }
    assert forall|j: nat| s.level >= s.sustain && j < k0 implies (#[trigger] s.ticks(j)).level
        >= s.ticks(j + 1).level by {
        lemma_decay_step(s, j, k0);
    }
    let d = (if s.level > s.sustain { s.level - s.sustain } else { 0 }) as nat;
    let k = crossing_tick(d, r);
    if d > 0 {
        lemma_ramp_in_time(d, (LEVEL_ONE - s.sustain) as nat, s.decay, s.sample_rate);
        lemma_decay_prefix(s, (k - 1) as nat);
        assert(k * r == (k - 1) * r + r) by (nonlinear_arith);
    } else {
        lemma_ramp_in_time(0, LEVEL_ONE as nat, s.decay, s.sample_rate);
        assert(s.ticks(0) == s);
    }
    assert(s.ticks(k) == s.ticks((k - 1) as nat).ticked());
}

proof fn lemma_decay_step(s: EnvelopeModel, j: nat, k: nat)
    requires
        s.stage == Stage::Decay,
        s.level <= LEVEL_ONE,
        k == crossing_tick(
            (if s.level > s.sustain { s.level - s.sustain } else { 0 }) as nat,
            s.decay_rate,
        ),
        k >= 1,
        s.level > s.sustain ==> s.decay_rate > 0 && (k - 1) * s.decay_rate < s.level - s.sustain
            && k * s.decay_rate >= s.level - s.sustain,
        j < k,
    ensures
        j > 0 ==> s.ticks(j).stage == Stage::Decay && s.ticks(j).level > s.sustain,
        s.level >= s.sustain ==> s.ticks(j).level >= s.ticks(j + 1).level,
{
    let r = s.decay_rate;
    if s.level > s.sustain {
        assert(j * r <= (k - 1) * r) by (nonlinear_arith)
            requires
                j <= k - 1,
        ;
        lemma_decay_prefix(s, j);
        assert(s.ticks(j + 1) == s.ticks(j).ticked());
        if j + 1 < k {
            assert((j + 1) * r <= (k - 1) * r) by (nonlinear_arith)
                requires
                    j + 1 <= k - 1,
            ;
            assert((j + 1) * r == j * r + r) by (nonlinear_arith);
        }
    } else {
        assert(j == 0);
        assert(s.ticks(0) == s);
        assert(s.ticks(1) == s.ticks(0).ticked());
    }
}

/// In the sustain, the level holds for any number of ticks.
pub proof fn lemma_sustain_holds(s: EnvelopeModel, n: nat)
    requires
        s.stage == Stage::Sustain,
    ensures
        s.ticks(n) == s,
    decreases n,
{
    if n > 0 {
        lemma_sustain_holds(s, (n - 1) as nat);
    }
}

/// After `note_off` on an active envelope at a positive level, the
/// envelope stays active for exactly the release time rounded up to whole
/// ticks, whatever level the release started from: the level follows a
/// straight line down, never rising and staying above zero, and on the next
/// tick it reaches zero and the envelope goes idle. A release from level zero
/// ends on its first tick.
pub proof fn lemma_release_reaches_idle(s: EnvelopeModel)
    requires
        s.wf(),
        s.is_active(),
    ensures
        ({
            let e = s.released();
            let n = stage_ticks(s.release, s.sample_rate);
            &&& n >= 1
            &&& s.level > 0 ==> forall|j: nat|
                j < n ==> {
                    &&& (#[trigger] e.ticks(j)).is_active()
                    &&& e.ticks(j).level == release_level(s.level, j, n)
                    &&& e.ticks(j).level > 0
                    &&& e.ticks(j + 1).level <= e.ticks(j).level
                }
            &&& s.level > 0 ==> e.ticks(n).stage == Stage::Idle && e.ticks(n).level == 0
            &&& s.level == 0 ==> e.ticks(1).stage == Stage::Idle
        }),
{
    let e = s.released();
    let n = stage_ticks(s.release, s.sample_rate);
    lemma_stage_ticks_positive(s.release, s.sample_rate);
    lemma_release_level(s.level, 0, n);
    if s.level > 0 {
        assert forall|j: nat| j < n implies {
            &&& (#[trigger] e.ticks(j)).is_active()
            &&& e.ticks(j).level == release_level(s.level, j, n)
            &&& e.ticks(j).level > 0
            &&& e.ticks(j + 1).level <= e.ticks(j).level
        } by {
            lemma_release_step(e, j);
        }
        lemma_release_prefix(e, (n - 1) as nat);
        assert(e.ticks(n) == e.ticks((n - 1) as nat).ticked());
    } else {
        assert(e.ticks(1) == e.ticks(0).ticked());
    }
}

proof fn lemma_release_step(e: EnvelopeModel, j: nat)
    requires
        e.stage == Stage::Release,
        e.release_elapsed == 0,
        e.release_from > 0,
        e.release_ticks > 0,
        e.level == e.release_from,
        j < e.release_ticks,
    ensures
        e.ticks(j).is_active(),
        e.ticks(j).level == release_level(e.release_from, j, e.release_ticks),
        e.ticks(j).level > 0,
        e.ticks(j + 1).level <= e.ticks(j).level,
{
    lemma_release_prefix(e, j);
    lemma_release_level(e.release_from, j, e.release_ticks);
    assert(e.ticks(j + 1) == e.ticks(j).ticked());
    if j + 1 < e.release_ticks {
        lemma_release_prefix(e, j + 1);
    }
}

/// Retriggering never lowers the level on the next tick.
pub proof fn lemma_retrigger_never_drops(s: EnvelopeModel)
    requires
        s.wf(),
    ensures
        s.triggered().ticked().level >= s.level,
{
}

/// After `note_on` from any state, the level reaches full scale within the
/// attack time, then the sustain level within the decay time, and then holds
/// there however many further ticks follow.
pub proof fn lemma_note_on_shape(s: EnvelopeModel, n: nat)
    requires
        s.wf(),
    ensures
        ({
            let a = s.triggered();
            let k1 = crossing_tick((LEVEL_ONE - s.level) as nat, s.attack_rate);
            let k2 = crossing_tick((LEVEL_ONE - s.sustain) as nat, s.decay_rate);
            let held = a.ticks(k1).ticks(k2);
            &&& k1 <= stage_ticks(s.attack, s.sample_rate)
            &&& k2 <= stage_ticks(s.decay, s.sample_rate)
            &&& a.ticks(k1).level == LEVEL_ONE
            &&& held.stage == Stage::Sustain
            &&& held.level == s.sustain
            &&& held.ticks(n) == held
        }),
{
    let a = s.triggered();
    let k1 = crossing_tick((LEVEL_ONE - s.level) as nat, s.attack_rate);
    lemma_attack_reaches_full(s);
    let top = a.ticks(k1);
    lemma_decay_reaches_sustain(top);
    let k2 = crossing_tick((LEVEL_ONE - s.sustain) as nat, s.decay_rate);
    lemma_sustain_holds(top.ticks(k2), n);
}

} // verus!
