//! The ADSR envelope generator.
//!
//! A five-state machine (Idle, Attack, Decay, Sustain, Release) driven once
//! per sample by the any-note-held signal. Amplitude is a fixed-point
//! level in `[0, ENV_ONE]`; each ramp moves by `ENV_ONE / ramp_samples` per
//! step, so a ramp's duration in samples equals its configured length.
//! A ramp of zero samples completes within a single step.

use vstd::prelude::*;

verus! {

/// The fixed-point representation of full amplitude (1.0) for envelope
/// levels. Finer than the audio sample scale so that even the longest
/// supported ramp still moves by at least one unit per sample.
pub const ENV_ONE: i64 = 0x4000_0000;

/// The longest supported ramp, in samples (about 6.7 hours of audio at
/// 44.1 kHz); at most `ENV_ONE`, so a ramp never stalls.
pub const MAX_RAMP: i64 = 0x4000_0000;

/// The phase the envelope is in.
pub enum GateState {
    Attack,
    Decay,
    Sustain,
    Release,
    Idle,
}

impl GateState {
    /// Structural equality, usable from executable code.
    pub fn eq_state(&self, other: &GateState) -> (r: bool)
        ensures
            r == (self == other),
    {
        match (self, other) {
            (GateState::Attack, GateState::Attack) => true,
            (GateState::Decay, GateState::Decay) => true,
            (GateState::Sustain, GateState::Sustain) => true,
            (GateState::Release, GateState::Release) => true,
            (GateState::Idle, GateState::Idle) => true,
            _ => false,
        }
    }
}

/// The envelope's ramp lengths (in samples) and sustain level.
pub struct EnvParams {
    /// Attack ramp length in samples.
    pub attack: i64,
    /// Decay ramp length in samples.
    pub decay: i64,
    /// Sustain level, in `[0, ENV_ONE]`.
    pub sustain: i64,
    /// Release ramp length in samples.
    pub release: i64,
}

impl EnvParams {
    /// Every ramp is a non-negative, bounded number of samples and the
    /// sustain level is a valid amplitude.
    pub open spec fn wf(&self) -> bool {
        &&& 0 <= self.attack <= MAX_RAMP
        &&& 0 <= self.decay <= MAX_RAMP
        &&& 0 <= self.sustain <= ENV_ONE
        &&& 0 <= self.release <= MAX_RAMP
    }
}

/// Where the key-hold signal sends the machine before the level moves: a
/// held key starts (or re-starts) the attack from Idle or Release, a
/// released one sends every sounding phase to Release.
pub open spec fn gate_transition(st: GateState, gate: bool) -> GateState {
    match st {
        GateState::Idle => if gate {
            GateState::Attack
        } else {
            GateState::Idle
        },
        GateState::Release => if gate {
            GateState::Attack
        } else {
            GateState::Release
        },
        GateState::Attack => if gate {
            GateState::Attack
        } else {
            GateState::Release
        },
        GateState::Decay => if gate {
            GateState::Decay
        } else {
            GateState::Release
        },
        GateState::Sustain => if gate {
            GateState::Sustain
        } else {
            GateState::Release
        },
    }
}

/// How one sample moves the level within a phase, and where the phase ends:
/// attack ramps to full scale then decays, decay ramps down to the sustain
/// level, sustain holds it, release ramps to silence then idles. A ramp of
/// zero samples completes at once.
pub open spec fn ramp_step(st: GateState, level: int, p: EnvParams) -> (GateState, int) {
    match st {
        GateState::Idle => (GateState::Idle, 0),
        GateState::Attack => if p.attack == 0 {
            (GateState::Decay, ENV_ONE as int)
        } else {
            let up = level + ENV_ONE / p.attack;
            if up >= ENV_ONE {
                (GateState::Decay, ENV_ONE as int)
            } else {
                (GateState::Attack, up)
            }
        },
        GateState::Decay => if p.decay == 0 {
            (GateState::Sustain, p.sustain as int)
        } else {
            let down = level - ENV_ONE / p.decay;
            if down <= p.sustain {
                (GateState::Sustain, p.sustain as int)
            } else {
                (GateState::Decay, down)
            }
        },
        GateState::Sustain => (GateState::Sustain, p.sustain as int),
        GateState::Release => if p.release == 0 {
            (GateState::Idle, 0)
        } else {
            let down = level - ENV_ONE / p.release;
            if down <= 0 {
                (GateState::Idle, 0)
            } else {
                (GateState::Release, down)
            }
        },
    }
}

/// One envelope sample: the key-hold signal moves the machine, then the
/// level ramps.
pub open spec fn env_step(st: GateState, level: int, gate: bool, p: EnvParams) -> (GateState, int) {
    ramp_step(gate_transition(st, gate), level, p)
}

/// One hop of the underlying machine: the path
/// Idle -> Attack -> Decay -> Sustain -> Release -> Idle, with Release
/// re-entering Attack on a new gate, staying in a phase allowed.
pub open spec fn env_edge(pre: GateState, post: GateState, gate: bool) -> bool {
    match (pre, post) {
        (GateState::Idle, GateState::Idle) => !gate,
        (GateState::Idle, GateState::Attack) => gate,
        (GateState::Attack, GateState::Attack) => gate,
        (GateState::Attack, GateState::Decay) => gate,
        (GateState::Attack, GateState::Release) => !gate,
        (GateState::Decay, GateState::Decay) => gate,
        (GateState::Decay, GateState::Sustain) => gate,
        (GateState::Decay, GateState::Release) => !gate,
        (GateState::Sustain, GateState::Sustain) => gate,
        (GateState::Sustain, GateState::Release) => !gate,
        (GateState::Release, GateState::Release) => !gate,
        (GateState::Release, GateState::Idle) => !gate,
        (GateState::Release, GateState::Attack) => gate,
        _ => false,
    }
}

/// One sample crosses at most two machine hops (a zero-length ramp lets a
/// phase complete the moment it is entered).
pub open spec fn env_edges_ok(pre: GateState, post: GateState, gate: bool) -> bool {
    ||| env_edge(pre, post, gate)
    ||| exists|mid: GateState| env_edge(pre, mid, gate) && env_edge(mid, post, gate)
}

/// The envelope: its current amplitude and phase.
pub struct Envelope {
    /// Current amplitude, in `[0, ENV_ONE]`.
    pub level: i64,
    /// Current phase of the machine.
    pub state: GateState,
}

impl Envelope {
    /// The amplitude is a valid level.
    pub open spec fn wf(&self) -> bool {
        0 <= self.level <= ENV_ONE
    }

    /// A fresh envelope: silent and idle.
    pub fn new() -> (e: Envelope)
        ensures
            e.wf(),
            e.level == 0,
            e.state == GateState::Idle,
    {
        Envelope { level: 0, state: GateState::Idle }
    }

    /// Advance the envelope by one sample under the given key-hold signal
    /// and return
    /// the new amplitude. The result is exactly `env_step`; the level stays
    /// in `[0, ENV_ONE]`; the phase follows the machine's edges; a zero
    /// attack reaches full scale within the sample that starts it, a zero
    /// release reaches silence within the sample that ends it.
    pub fn step(&mut self, gate: bool, p: &EnvParams) -> (level: i64)
        requires
            old(self).wf(),
            p.wf(),
        ensures
            final(self).wf(),
            (final(self).state, final(self).level as int) == env_step(
                old(self).state,
                old(self).level as int,
                gate,
                *p,
            ),
            level == final(self).level,
            env_edges_ok(old(self).state, final(self).state, gate),
            gate && p.attack == 0 && (old(self).state == GateState::Idle || old(self).state
                == GateState::Release) ==> final(self).level == ENV_ONE,
            !gate && p.release == 0 ==> final(self).level == 0,
    {
        let gated: GateState = match self.state {
            GateState::Idle => if gate {
                GateState::Attack
            } else {
                GateState::Idle
            },
            GateState::Release => if gate {
                GateState::Attack
            } else {
                GateState::Release
            },
            GateState::Attack => if gate {
                GateState::Attack
            } else {
                GateState::Release
            },
            GateState::Decay => if gate {
                GateState::Decay
            } else {
                GateState::Release
            },
            GateState::Sustain => if gate {
                GateState::Sustain
            } else {
                GateState::Release
            },
        };
        match gated {
            GateState::Idle => {
                self.level = 0;
                self.state = GateState::Idle;
            },
            GateState::Attack => {
                if p.attack == 0 {
                    self.level = ENV_ONE;
                    self.state = GateState::Decay;
                } else {
                    let up = self.level + crate::fixed::div_trunc(ENV_ONE, p.attack);
                    if up >= ENV_ONE {
                        self.level = ENV_ONE;
                        self.state = GateState::Decay;
                    } else {
                        self.level = up;
                        self.state = GateState::Attack;
                    }
                }
            },
            GateState::Decay => {
                if p.decay == 0 {
                    self.level = p.sustain;
                    self.state = GateState::Sustain;
                } else {
                    let down = self.level - crate::fixed::div_trunc(ENV_ONE, p.decay);
                    if down <= p.sustain {
                        self.level = p.sustain;
                        self.state = GateState::Sustain;
                    } else {
                        self.level = down;
                        self.state = GateState::Decay;
                    }
                }
            },
            GateState::Sustain => {
                self.level = p.sustain;
                self.state = GateState::Sustain;
            },
            GateState::Release => {
                if p.release == 0 {
                    self.level = 0;
                    self.state = GateState::Idle;
                } else {
                    let down = self.level - crate::fixed::div_trunc(ENV_ONE, p.release);
                    if down <= 0 {
                        self.level = 0;
                        self.state = GateState::Idle;
                    } else {
                        self.level = down;
                        self.state = GateState::Release;
                    }
                }
            },
        }
        proof {
            let pre = old(self).state;
            let post = self.state;
            if !env_edge(pre, post, gate) {
                assert(env_edge(pre, gated, gate));
                assert(env_edge(gated, post, gate));
            }
        }
        self.level
    }
}

/// The envelope after a whole key-hold sequence, one sample per entry.
pub open spec fn env_run(st: GateState, level: int, gates: Seq<bool>, p: EnvParams) -> (GateState, int)
    decreases gates.len(),
{
    if gates.len() == 0 {
        (st, level)
    } else {
        let next = env_step(st, level, gates[0], p);
        env_run(next.0, next.1, gates.drop_first(), p)
    }
}

/// One sample keeps the level in range.
pub proof fn lemma_env_step_in_range(st: GateState, level: int, gate: bool, p: EnvParams)
    requires
        p.wf(),
        0 <= level <= ENV_ONE,
    ensures
        0 <= env_step(st, level, gate, p).1 <= ENV_ONE,
{
    let g = gate_transition(st, gate);
    match g {
        GateState::Attack => if p.attack > 0 {
            vstd::arithmetic::div_mod::lemma_div_pos_is_pos(ENV_ONE as int, p.attack as int);
        },
        GateState::Decay => if p.decay > 0 {
            vstd::arithmetic::div_mod::lemma_div_pos_is_pos(ENV_ONE as int, p.decay as int);
            vstd::arithmetic::div_mod::lemma_div_nonincreasing(ENV_ONE as int, p.decay as int);
        },
        GateState::Release => if p.release > 0 {
            vstd::arithmetic::div_mod::lemma_div_pos_is_pos(ENV_ONE as int, p.release as int);
            vstd::arithmetic::div_mod::lemma_div_nonincreasing(ENV_ONE as int, p.release as int);
        },
        _ => {},
    }
}

/// Envelope totality: for any ramp lengths, any sustain level and any
/// key-hold sequence, the amplitude stays within `[0, ENV_ONE]`.
pub proof fn lemma_env_run_in_range(st: GateState, level: int, gates: Seq<bool>, p: EnvParams)
    requires
        p.wf(),
        0 <= level <= ENV_ONE,
    ensures
        0 <= env_run(st, level, gates, p).1 <= ENV_ONE,
    decreases gates.len(),
{
    if gates.len() > 0 {
        lemma_env_step_in_range(st, level, gates[0], p);
        let next = env_step(st, level, gates[0], p);
        lemma_env_run_in_range(next.0, next.1, gates.drop_first(), p);
    }
}

/// Envelope path soundness: every sample's phase change follows the machine
/// Idle -> Attack -> Decay -> Sustain -> Release -> Idle (with re-trigger
/// from Release), crossing at most one zero-length phase; in particular a
/// released key never moves a sounding phase anywhere but toward Release.
pub proof fn lemma_env_step_edges(st: GateState, level: int, gate: bool, p: EnvParams)
    requires
        p.wf(),
    ensures
        env_edges_ok(st, env_step(st, level, gate, p).0, gate),
{
    let g = gate_transition(st, gate);
    let post = env_step(st, level, gate, p).0;
    if !env_edge(st, post, gate) {
        assert(env_edge(st, g, gate));
        assert(env_edge(g, post, gate));
    }
}

/// `k` samples of one unchanging key state.
pub open spec fn same_gate(g: bool, k: int) -> Seq<bool> {
    Seq::new(k as nat, |i: int| g)
}

/// A run over two spliced key sequences is the second run picking up where
/// the first ended.
pub proof fn lemma_env_run_concat(
    st: GateState,
    level: int,
    g1: Seq<bool>,
    g2: Seq<bool>,
    p: EnvParams,
)
    ensures
        env_run(st, level, g1 + g2, p) == ({
            let m = env_run(st, level, g1, p);
            env_run(m.0, m.1, g2, p)
        }),
    decreases g1.len(),
{
    if g1.len() == 0 {
        assert(g1 + g2 =~= g2);
    } else {
        assert((g1 + g2)[0] == g1[0]);
        let n = env_step(st, level, g1[0], p);
        assert((g1 + g2).drop_first() =~= g1.drop_first() + g2);
        lemma_env_run_concat(n.0, n.1, g1.drop_first(), g2, p);
    }
}

/// A sustained envelope under a held key sits on the sustain level forever.
proof fn lemma_sustain_stays(p: EnvParams, k: int)
    requires
        p.wf(),
        0 <= k,
    ensures
        env_run(GateState::Sustain, p.sustain as int, same_gate(true, k), p) == (
            GateState::Sustain,
            p.sustain as int,
        ),
    decreases k,
{
    if k > 0 {
        assert(same_gate(true, k).drop_first() =~= same_gate(true, k - 1));
        lemma_sustain_stays(p, k - 1);
    }
}

/// An idle envelope under a released key stays silent forever.
proof fn lemma_idle_stays(p: EnvParams, k: int)
    requires
        p.wf(),
        0 <= k,
    ensures
        env_run(GateState::Idle, 0, same_gate(false, k), p) == (GateState::Idle, 0int),
    decreases k,
{
    if k > 0 {
        assert(same_gate(false, k).drop_first() =~= same_gate(false, k - 1));
        lemma_idle_stays(p, k - 1);
    }
}

/// A ramp of at most `ENV_ONE` samples moves at least one unit per sample.
proof fn lemma_ramp_inc_pos(a: int)
    requires
        1 <= a <= ENV_ONE,
    ensures
        1 <= (ENV_ONE as int) / a,
{
    vstd::arithmetic::div_mod::lemma_div_is_ordered_by_denominator(ENV_ONE as int, a,
        ENV_ONE as int);
    vstd::arithmetic::div_mod::lemma_div_by_self(ENV_ONE as int);
}

/// While the attack ramp is still below full scale, `j` held samples from
/// silence put the level at exactly `j` increments.
proof fn lemma_attack_trajectory(p: EnvParams, j: int)
    requires
        p.wf(),
        1 <= p.attack,
        1 <= j,
        j * (ENV_ONE / p.attack) < ENV_ONE,
    ensures
        env_run(GateState::Idle, 0, same_gate(true, j), p) == (
            GateState::Attack,
            j * (ENV_ONE / p.attack),
        ),
    decreases j,
{
    let inc = (ENV_ONE as int) / (p.attack as int);
    lemma_ramp_inc_pos(p.attack as int);
    assert(1 * inc == inc) by (nonlinear_arith);
    assert(same_gate(true, 1).len() == 1);
    assert(same_gate(true, 1)[0] == true);
    assert(same_gate(true, 1).drop_first() =~= same_gate(true, 0));
    if j == 1 {
        let n = env_step(GateState::Idle, 0, true, p);
        assert(n.0 == GateState::Attack && n.1 == inc);
        assert(env_run(n.0, n.1, same_gate(true, 0), p) == n);
    } else {
        assert((j - 1) * inc < j * inc && j * inc == (j - 1) * inc + inc) by (nonlinear_arith)
            requires
                1 <= inc,
                2 <= j,
        ;
        lemma_attack_trajectory(p, j - 1);
        assert(same_gate(true, j) =~= same_gate(true, j - 1) + same_gate(true, 1));
        lemma_env_run_concat(GateState::Idle, 0, same_gate(true, j - 1), same_gate(true, 1), p);
        let n = env_step(GateState::Attack, (j - 1) * inc, true, p);
        assert(n.0 == GateState::Attack && n.1 == j * inc);
        assert(env_run(n.0, n.1, same_gate(true, 0), p) == n);
        assert(env_run(GateState::Attack, (j - 1) * inc, same_gate(true, 1), p) == n);
    }
}

/// Some number of increments first reaches full scale.
proof fn lemma_crossing(inc: int, m: int)
    requires
        1 <= inc,
        0 <= m,
        m * inc < ENV_ONE,
    ensures
        exists|k: int| m < k && (k - 1) * inc < ENV_ONE <= #[trigger] (k * inc),
    decreases ENV_ONE - m * inc,
{
    assert((m + 1) * inc == m * inc + inc) by (nonlinear_arith);
    if (m + 1) * inc >= ENV_ONE {
        assert(m < m + 1 && (m + 1 - 1) * inc < ENV_ONE <= (m + 1) * inc);
    } else {
        lemma_crossing(inc, m + 1);
    }
}

/// A ramp of `a` samples (for `a` up to the square root of full scale)
/// covers full scale within `a + 1` increments.
proof fn lemma_ramp_covers(a: int)
    requires
        1 <= a,
        a * a <= ENV_ONE,
    ensures
        ENV_ONE <= (a + 1) * ((ENV_ONE as int) / a),
{
    let inc = (ENV_ONE as int) / a;
    vstd::arithmetic::div_mod::lemma_fundamental_div_mod(ENV_ONE as int, a);
    vstd::arithmetic::div_mod::lemma_mod_bound(ENV_ONE as int, a);
    assert(a <= inc) by {
        vstd::arithmetic::div_mod::lemma_div_is_ordered(a * a, ENV_ONE as int, a);
        vstd::arithmetic::div_mod::lemma_div_multiples_vanish(a, a);
    }
    assert((a + 1) * inc == a * inc + inc && a * inc + (ENV_ONE as int) % a == ENV_ONE)
        by (nonlinear_arith)
        requires
            a * inc + (ENV_ONE as int) % a == ENV_ONE,
    ;
}

/// Zero-to-full attack timing: under a held key with an attack of `a`
/// samples, the envelope reaches exactly full scale — entering Decay — at
/// the sample where the increments first cover full scale, which is within
/// `a + 1` samples of the key going down.
pub proof fn lemma_attack_reaches_full(p: EnvParams, k: int)
    requires
        p.wf(),
        1 <= p.attack,
        p.attack * p.attack <= ENV_ONE,
        1 <= k,
        (k - 1) * (ENV_ONE / p.attack) < ENV_ONE <= k * (ENV_ONE / p.attack),
    ensures
        env_run(GateState::Idle, 0, same_gate(true, k), p) == (GateState::Decay, ENV_ONE as int),
        k <= p.attack + 1,
{
    let a = p.attack as int;
    let inc = (ENV_ONE as int) / a;
    lemma_ramp_inc_pos(a);
    lemma_ramp_covers(a);
    assert(k <= a + 1) by {
        if k >= a + 2 {
            assert((a + 1) * inc <= (k - 1) * inc) by (nonlinear_arith)
                requires
                    1 <= inc,
                    a + 1 <= k - 1,
            ;
        }
    }
    assert(same_gate(true, 1).len() == 1);
    assert(same_gate(true, 1)[0] == true);
    assert(same_gate(true, 1).drop_first() =~= same_gate(true, 0));
    assert(1 * inc == inc) by (nonlinear_arith);
    if k == 1 {
        let n = env_step(GateState::Idle, 0, true, p);
        assert(n.0 == GateState::Decay && n.1 == ENV_ONE);
        assert(env_run(n.0, n.1, same_gate(true, 0), p) == n);
    } else {
        lemma_attack_trajectory(p, k - 1);
        assert(same_gate(true, k) =~= same_gate(true, k - 1) + same_gate(true, 1));
        lemma_env_run_concat(GateState::Idle, 0, same_gate(true, k - 1), same_gate(true, 1), p);
        assert((k - 1) * inc + inc == k * inc) by (nonlinear_arith);
        let n = env_step(GateState::Attack, (k - 1) * inc, true, p);
        assert(n.0 == GateState::Decay && n.1 == ENV_ONE);
        assert(env_run(n.0, n.1, same_gate(true, 0), p) == n);
        assert(env_run(GateState::Attack, (k - 1) * inc, same_gate(true, 1), p) == n);
    }
}

/// Decay timing: from full scale under a held key, once the decrements can
/// cover the distance down to the sustain level, the envelope sits exactly
/// on the sustain level.
proof fn lemma_decay_run(p: EnvParams, level: int, k: int)
    requires
        p.wf(),
        1 <= p.decay,
        p.sustain <= level <= ENV_ONE,
        1 <= k,
        level <= p.sustain + k * (ENV_ONE / p.decay),
    ensures
        env_run(GateState::Decay, level, same_gate(true, k), p) == (
            GateState::Sustain,
            p.sustain as int,
        ),
    decreases k,
{
    let dec = (ENV_ONE as int) / (p.decay as int);
    lemma_ramp_inc_pos(p.decay as int);
    let down = level - dec;
    assert(same_gate(true, k).drop_first() =~= same_gate(true, k - 1));
    if down <= p.sustain {
        lemma_sustain_stays(p, k - 1);
    } else {
        assert(k >= 2 && down <= p.sustain + (k - 1) * dec) by (nonlinear_arith)
            requires
                1 <= dec,
                1 <= k,
                level <= p.sustain + k * dec,
                down == level - dec,
                down > p.sustain,
        ;
        lemma_decay_run(p, down, k - 1);
    }
}

/// Release timing: from any level under a released key, once the decrements
/// can cover the remaining level the envelope is exactly silent and idle.
pub proof fn lemma_release_silences(p: EnvParams, st: GateState, level: int, k: int)
    requires
        p.wf(),
        1 <= p.release,
        0 <= level <= ENV_ONE,
        1 <= k,
        level <= k * (ENV_ONE / p.release),
    ensures
        env_run(st, level, same_gate(false, k), p) == (GateState::Idle, 0int),
    decreases k,
{
    let rel = (ENV_ONE as int) / (p.release as int);
    lemma_ramp_inc_pos(p.release as int);
    assert(same_gate(false, k).drop_first() =~= same_gate(false, k - 1));
    match gate_transition(st, false) {
        GateState::Idle => {
            lemma_idle_stays(p, k - 1);
        },
        _ => {
            let down = level - rel;
            if down <= 0 {
                lemma_idle_stays(p, k - 1);
            } else {
                assert(k >= 2 && down <= (k - 1) * rel) by (nonlinear_arith)
                    requires
                        1 <= rel,
                        1 <= k,
                        level <= k * rel,
                        down == level - rel,
                        down > 0,
                ;
                lemma_release_silences(p, GateState::Release, down, k - 1);
            }
        },
    }
}

/// The timed ADSR run: with attack, decay and release of `a`, `d` and `r`
/// samples (each at most the square root of full scale — hours of audio),
/// a key held for `hold` samples and then released, the envelope
/// - passes exactly full scale within `a + 1` samples of the key going down,
/// - sits exactly on the sustain level from sample `a + d + 2` of the hold
///   to its end, and
/// - is exactly silent within `r + 1` samples of the key going up.
pub proof fn lemma_adsr_timeline(p: EnvParams, hold: int, tail: int)
    requires
        p.wf(),
        1 <= p.attack,
        p.attack * p.attack <= ENV_ONE,
        1 <= p.decay,
        p.decay * p.decay <= ENV_ONE,
        1 <= p.release,
        p.release * p.release <= ENV_ONE,
        hold >= p.attack + p.decay + 2,
        tail >= p.release + 1,
    ensures
        exists|k: int|
            1 <= k <= p.attack + 1 && env_run(GateState::Idle, 0, #[trigger] same_gate(true, k),
                p) == (GateState::Decay, ENV_ONE as int),
        env_run(GateState::Idle, 0, same_gate(true, hold), p) == (
            GateState::Sustain,
            p.sustain as int,
        ),
        env_run(GateState::Idle, 0, same_gate(true, hold) + same_gate(false, tail), p) == (
            GateState::Idle,
            0int,
        ),
{
    let a = p.attack as int;
    let inc = (ENV_ONE as int) / a;
    lemma_ramp_inc_pos(a);
    assert(0 * inc == 0) by (nonlinear_arith);
    lemma_crossing(inc, 0);
    let k = choose|k: int| 0 < k && (k - 1) * inc < ENV_ONE <= #[trigger] (k * inc);
    lemma_attack_reaches_full(p, k);
    // The hold splits into the attack crossing, the decay, and the rest.
    assert(same_gate(true, hold) =~= same_gate(true, k) + same_gate(true, hold - k));
    lemma_env_run_concat(GateState::Idle, 0, same_gate(true, k), same_gate(true, hold - k), p);
    let rest = hold - k;
    assert(rest >= p.decay + 1);
    let dec = (ENV_ONE as int) / (p.decay as int);
    lemma_ramp_inc_pos(p.decay as int);
    lemma_ramp_covers(p.decay as int);
    assert(ENV_ONE <= p.sustain + rest * dec) by (nonlinear_arith)
        requires
            1 <= dec,
            0 <= p.sustain,
            p.decay + 1 <= rest,
            ENV_ONE <= (p.decay + 1) * dec,
    ;
    lemma_decay_run(p, ENV_ONE as int, rest);
    // The tail covers the sustain level.
    lemma_env_run_concat(GateState::Idle, 0, same_gate(true, hold), same_gate(false, tail), p);
    let rel = (ENV_ONE as int) / (p.release as int);
    lemma_ramp_inc_pos(p.release as int);
    lemma_ramp_covers(p.release as int);
    assert(p.sustain <= tail * rel) by (nonlinear_arith)
        requires
            1 <= rel,
            p.sustain <= ENV_ONE,
            p.release + 1 <= tail,
            ENV_ONE <= (p.release + 1) * rel,
    ;
    lemma_release_silences(p, GateState::Sustain, p.sustain as int, tail);
}

} // verus!
