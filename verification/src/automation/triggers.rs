use vstd::prelude::*;
use crate::timecode::types::{Timecode, label_frame_count};
use crate::shared::ids::new_uuid;

verus! {

/// When a timecode trigger fires, relative to its threshold.
#[derive(Debug, Clone, Copy, PartialEq, Eq, Structural)]
pub enum TriggerCondition {
    AtExactFrame,
    AfterFrame,
    BeforeFrame,
    EveryNFrames { n: u32 },
}

/// What a fired trigger asks for. Ids are UUIDs as 128-bit values; gains and volumes are
/// `f32` values held as their bit patterns.
#[derive(Debug, Clone, Copy, PartialEq, Eq, Structural)]
pub enum TriggerAction {
    MuteTrack { track_id: u128, mute: bool },
    SoloTrack { track_id: u128, solo: bool },
    BypassNode { node_id: u128, bypass: bool },
    StartDucking,
    StopDucking,
    BroadcastPosition,
    SetTrackGain { track_id: u128, value: u32 },
    SetMasterVolume { value: u32 },
    TriggerCue { cue_id: u128 },
    StartTransport,
    StopTransport,
}

/// An automation cue tied to a timecode threshold.
#[derive(Debug)]
pub struct TimecodeTrigger {
    pub id: u128,
    pub name: String,
    pub condition: TriggerCondition,
    pub threshold: Timecode,
    pub action: TriggerAction,
    pub fired: bool,
    pub rearm_after_reset: bool,
}

impl Clone for TimecodeTrigger {
    fn clone(&self) -> (r: Self)
        ensures
            r == *self,
    {
        TimecodeTrigger {
            id: self.id,
            name: self.name.clone(),
            condition: self.condition,
            threshold: self.threshold,
            action: self.action,
            fired: self.fired,
            rearm_after_reset: self.rearm_after_reset,
        }
    }
}

/// Whether the condition holds at the current position.
pub open spec fn condition_holds(condition: TriggerCondition, current_frames: int, threshold_frames: int, frames_passed: int) -> bool {
    match condition {
        TriggerCondition::AtExactFrame => current_frames == threshold_frames,
        TriggerCondition::AfterFrame => current_frames >= threshold_frames,
        TriggerCondition::BeforeFrame => current_frames <= threshold_frames,
        TriggerCondition::EveryNFrames { n } => frames_passed % (n as int) == 0,
    }
}

pub open spec fn is_periodic(condition: TriggerCondition) -> bool {
    condition is EveryNFrames
}

/// A periodic trigger needs a non-zero period (the check divides by it).
pub open spec fn has_valid_period(condition: TriggerCondition) -> bool {
    condition matches TriggerCondition::EveryNFrames { n } ==> n != 0
}

/// Whether `check` fires: the condition holds, and the trigger has not fired yet or is
/// periodic.
pub open spec fn fires(t: TimecodeTrigger, current: Timecode, frames_passed: int) -> bool {
    condition_holds(t.condition, label_frame_count(current), label_frame_count(t.threshold), frames_passed)
        && (!t.fired || is_periodic(t.condition))
}

impl TimecodeTrigger {
    /// An armed trigger with a fresh random id, re-armed by resets.
    pub fn new(name: String, condition: TriggerCondition, threshold: Timecode, action: TriggerAction) -> (t: Self)
        ensures
            t.name == name,
            t.condition == condition,
            t.threshold == threshold,
            t.action == action,
            !t.fired,
            t.rearm_after_reset,
    {
        Self {
            id: new_uuid(),
            name,
            condition,
            threshold,
            action,
            fired: false,
            rearm_after_reset: true,
        }
    }

    /// Checks the trigger at the current timecode: when it fires, it is marked fired
    /// and its action is returned.
    pub fn check(&mut self, current: &Timecode, frames_passed: i64) -> (r: Option<TriggerAction>)
        requires
            has_valid_period(old(self).condition),
        ensures
            r == (if fires(*old(self), *current, frames_passed as int) {
                Some(old(self).action)
            } else {
                None
            }),
            *final(self) == (TimecodeTrigger {
                fired: old(self).fired || fires(*old(self), *current, frames_passed as int),
                ..*old(self)
            }),
    {
        let cur_frames = current.to_total_frames();
        let thr_frames = self.threshold.to_total_frames();
        let should_fire = match self.condition {
            TriggerCondition::AtExactFrame => cur_frames == thr_frames,
            TriggerCondition::AfterFrame => cur_frames >= thr_frames,
            TriggerCondition::BeforeFrame => cur_frames <= thr_frames,
            TriggerCondition::EveryNFrames { n } => {
                let r = frames_passed % (n as i64);
                proof {
                    lemma_rem_zero_iff_divides(frames_passed as int, n as int);
                }
                r == 0
            },
        };
        if should_fire && (!self.fired || matches!(self.condition, TriggerCondition::EveryNFrames { .. })) {
            self.fired = true;
            Some(self.action)
        } else {
            None
        }
    }

    /// Re-arms the trigger, unless it is set not to re-arm.
    pub fn reset(&mut self)
        ensures
            *final(self) == (TimecodeTrigger {
                fired: if old(self).rearm_after_reset {
                    false
                } else {
                    old(self).fired
                },
                ..*old(self)
            }),
    {
        if self.rearm_after_reset {
            self.fired = false;
        }
    }
}

/// The machine remainder is zero exactly when the divisor divides the dividend.
proof fn lemma_rem_zero_iff_divides(a: int, n: int)
    requires
        n > 0,
    ensures
        crate::timecode::types::tmod(a, n) == 0 <==> a % n == 0,
{
    if a < 0 {
        let q = (-a) / n;
        let r = (-a) % n;
        assert(-a == n * q + r) by (nonlinear_arith) requires n > 0, q == (-a) / n, r == (-a) % n;
        assert(0 <= r < n);
        if r == 0 {
            assert(a == n * (-q)) by (nonlinear_arith) requires -a == n * q;
            vstd::arithmetic::div_mod::lemma_fundamental_div_mod_converse(a, n, -q, 0);
        } else {
            assert(a == n * (-q - 1) + (n - r)) by (nonlinear_arith) requires -a == n * q + r;
            vstd::arithmetic::div_mod::lemma_fundamental_div_mod_converse(a, n, -q - 1, n - r);
        }
    }
}

/// A trigger that is not periodic fires at most once until it is reset: once `check` has
/// returned its action, every later `check` returns nothing.
pub proof fn lemma_fires_once(t: TimecodeTrigger, c1: Timecode, f1: int, c2: Timecode, f2: int)
    requires
        !is_periodic(t.condition),
        fires(t, c1, f1),
    ensures
        !fires(TimecodeTrigger { fired: true, ..t }, c2, f2),
{
}

/// A reset re-arms a trigger that re-arms after resets: it fires again as soon as its
/// condition holds.
pub proof fn lemma_reset_rearms(t: TimecodeTrigger, c: Timecode, f: int)
    requires
        t.rearm_after_reset,
        condition_holds(t.condition, label_frame_count(c), label_frame_count(t.threshold), f),
    ensures
        fires(TimecodeTrigger { fired: false, ..t }, c, f),
{
}

/// A trigger for an exact frame fires exactly when it is armed and the current label
/// counts the same frames as its threshold: at any earlier or later frame `check`
/// returns nothing.
pub proof fn lemma_exact_frame_fires_only_at_threshold(t: TimecodeTrigger, c: Timecode, f: int)
    requires
        t.condition == TriggerCondition::AtExactFrame,
    ensures
        fires(t, c, f) <==> !t.fired && label_frame_count(c) == label_frame_count(t.threshold),
        label_frame_count(c) < label_frame_count(t.threshold) ==> !fires(t, c, f),
        label_frame_count(c) > label_frame_count(t.threshold) ==> !fires(t, c, f),
{
}

/// A trigger for after a frame fires exactly when it is armed and the current label is
/// at or past its threshold.
pub proof fn lemma_after_frame_fires_from_threshold(t: TimecodeTrigger, c: Timecode, f: int)
    requires
        t.condition == TriggerCondition::AfterFrame,
    ensures
        fires(t, c, f) <==> !t.fired && label_frame_count(c) >= label_frame_count(t.threshold),
{
}

/// A trigger for before a frame fires exactly when it is armed and the current label is
/// at or before its threshold.
pub proof fn lemma_before_frame_fires_up_to_threshold(t: TimecodeTrigger, c: Timecode, f: int)
    requires
        t.condition == TriggerCondition::BeforeFrame,
    ensures
        fires(t, c, f) <==> !t.fired && label_frame_count(c) <= label_frame_count(t.threshold),
{
}

/// A periodic trigger fires whenever the frames passed are a multiple of its period,
/// whether or not it has fired before, and never otherwise.
pub proof fn lemma_every_n_frames_fires_on_multiples(t: TimecodeTrigger, c: Timecode, f: int, n: u32, k: int)
    requires
        t.condition == (TriggerCondition::EveryNFrames { n }),
        n > 0,
    ensures
        fires(t, c, k * n),
        f % (n as int) != 0 ==> !fires(t, c, f),
{
    vstd::arithmetic::div_mod::lemma_mod_multiples_basic(k, n as int);
}

} // verus!
