//! Audio hand-off between the emulation and whatever plays it.
//!
//! [`AudioOutput`] is a bounded ring of interleaved stereo samples at
//! [`AUDIO_SAMPLE_RATE`](crate::emulator::console::AUDIO_SAMPLE_RATE). The emulation pushes each
//! frame's samples into it; an audio device pops what it needs. The two clocks are never exactly
//! the same, so the ring bounds the drift instead of correcting it: when it overflows, the *oldest*
//! samples are dropped so latency never grows; when it runs dry, the reader gets fewer samples than
//! it asked for and pads with silence.

use crate::emulator::console::AUDIO_SAMPLE_RATE;
use crate::replay::packet;
use crate::replay::packet::Speed;
use std::collections::VecDeque;
use vstd::prelude::*;

verus! {

/// The newest `n` samples.
pub open spec fn newest_samples(s: Seq<i16>, n: nat) -> Seq<i16> {
    if s.len() <= n {
        s
    } else {
        s.skip(s.len() - n)
    }
}

/// Stereo frames in that many milliseconds (at least one), as far as they can be counted.
pub open spec fn frames_in(ms: u32) -> nat {
    let ms: int = if ms == 0 {
        1
    } else {
        ms as int
    };
    let frames = (AUDIO_SAMPLE_RATE * ms + 999) / 1000;
    if frames > usize::MAX / 2 {
        (usize::MAX / 2) as nat
    } else {
        frames as nat
    }
}

/// Sample ring; see the [module docs](self).
pub struct AudioOutput {
    /// Interleaved stereo samples.
    samples: VecDeque<i16>,
    /// Most stereo frames the ring may hold.
    max_frames: usize,
    /// Current emulation speed, for the consumer (it may pitch-shift playback to match when sped-up
    /// audio is not muted).
    speed: Speed,
    /// Whether sped-up playback needs pitch scaling on the consumer side: `true` for cores that
    /// emit more samples per real second when sped up, `false` for those that already render at the
    /// host rate (pitched) at any speed.
    fast_forward_scales_pitch: bool,
}

impl View for AudioOutput {
    type V = Seq<i16>;

    closed spec fn view(&self) -> Seq<i16> {
        self.samples@
    }
}

impl AudioOutput {
    /// Most stereo frames the ring holds.
    pub closed spec fn capacity(self) -> nat {
        self.max_frames as nat
    }

    /// The speed published.
    pub closed spec fn published_speed(self) -> Speed {
        self.speed
    }

    /// Whether sped-up playback needs pitch scaling on the consumer side.
    pub closed spec fn scales_pitch(self) -> bool {
        self.fast_forward_scales_pitch
    }

    /// Whole stereo frames, and no more than the ring may hold.
    pub open spec fn wf(self) -> bool {
        &&& self@.len() % 2 == 0
        &&& self@.len() <= 2 * self.capacity()
        &&& self.capacity() <= usize::MAX / 2
    }

    /// Whether everything but the samples stayed as it was.
    pub open spec fn same_settings(self, after: Self) -> bool {
        &&& after.capacity() == self.capacity()
        &&& after.published_speed() == self.published_speed()
        &&& after.scales_pitch() == self.scales_pitch()
    }

    /// Create an empty ring that holds at most `max_latency_ms` of audio.
    pub fn new(max_latency_ms: u32) -> (r: Self)
        ensures
            r.wf(),
            r@ == Seq::<i16>::empty(),
            r.capacity() == frames_in(max_latency_ms),
            r.published_speed().units == packet::NORMAL_SPEED,
            r.scales_pitch(),
    {
        let mut r = AudioOutput {
            samples: VecDeque::new(),
            max_frames: 0,
            speed: Speed::default(),
            fast_forward_scales_pitch: true,
        };
        assert(r@ =~= Seq::<i16>::empty());
        r.set_max_latency_ms(max_latency_ms);
        assert(r@ =~= Seq::<i16>::empty());
        r
    }

    /// Change how much audio the ring may hold (older samples are dropped if it now holds more).
    pub fn set_max_latency_ms(&mut self, max_latency_ms: u32)
        requires
            old(self).wf(),
        ensures
            final(self).wf(),
            final(self).capacity() == frames_in(max_latency_ms),
            final(self)@ == newest_samples(old(self)@, 2 * frames_in(max_latency_ms)),
            final(self).published_speed() == old(self).published_speed(),
            final(self).scales_pitch() == old(self).scales_pitch(),
    {
        let ms: u64 = if max_latency_ms == 0 {
            1
        } else {
            max_latency_ms as u64
        };
        assert(AUDIO_SAMPLE_RATE * ms <= 48_000 * u32::MAX) by (nonlinear_arith)
            requires
                AUDIO_SAMPLE_RATE == 48_000,
                ms <= u32::MAX,
        ;
        let frames: u64 = (AUDIO_SAMPLE_RATE as u64 * ms + 999) / 1000;
        let most: usize = usize::MAX / 2;
        self.max_frames = if frames > most as u64 {
            most
        } else {
            frames as usize
        };
        self.trim();
    }

    /// Most stereo frames the ring holds.
    pub fn max_frames(&self) -> (r: usize)
        ensures
            r == self.capacity(),
    {
        self.max_frames
    }

    /// Append interleaved stereo samples, dropping the oldest if the ring would overflow.
    pub fn push(&mut self, samples: &[i16])
        requires
            old(self).wf(),
            samples@.len() % 2 == 0,
        ensures
            final(self).wf(),
            final(self)@ == newest_samples(old(self)@ + samples@, 2 * old(self).capacity()),
            old(self).same_settings(*final(self)),
    {
        let ghost before = self@;
        let mut i: usize = 0;
        assert(before + samples@.take(0) =~= before);
        while i < samples.len()
            invariant
                i <= samples@.len(),
                self@ == before + samples@.take(i as int),
                old(self).same_settings(*self),
            decreases samples@.len() - i,
        {
            self.samples.push_back(samples[i]);
            i = i + 1;
            assert(self@ =~= before + samples@.take(i as int));
        }
        assert(samples@.take(i as int) =~= samples@);
        assert((before.len() + samples@.len()) % 2 == 0);
        self.trim();
    }

    /// Pop up to half as many stereo frames as `into` has samples into it, returning how many
    /// frames were written. The rest of `into` is untouched; the caller pads it with silence.
    pub fn read(&mut self, into: &mut Vec<i16>) -> (r: usize)
        requires
            old(self).wf(),
        ensures
            final(self).wf(),
            r == (if old(self)@.len() / 2 < old(into)@.len() / 2 {
                old(self)@.len() / 2
            } else {
                old(into)@.len() / 2
            }),
            final(into)@ == old(self)@.take(2 * r) + old(into)@.skip(2 * r),
            final(self)@ == old(self)@.skip(2 * r),
            old(self).same_settings(*final(self)),
    {
        let ghost before = self@;
        let ghost given = into@;
        let wanted: usize = into.len() / 2 * 2;
        let available: usize = if self.samples.len() < wanted {
            self.samples.len()
        } else {
            wanted
        };
        let mut i: usize = 0;
        while i < available
            invariant
                i <= available <= before.len(),
                available <= given.len(),
                self@ == before.skip(i as int),
                into@ == before.take(i as int) + given.skip(i as int),
                old(self).same_settings(*self),
            decreases available - i,
        {
            let ghost filled = into@;
            if let Some(sample) = self.samples.pop_front() {
                into[i] = sample;
                assert(sample == before[i as int]);
            }
            i = i + 1;
            assert(self@ =~= before.skip(i as int));
            assert(into@ =~= before.take(i as int) + given.skip(i as int));
        }
        available / 2
    }

    /// Drop everything queued.
    pub fn clear(&mut self)
        ensures
            final(self)@ == Seq::<i16>::empty(),
            old(self).same_settings(*final(self)),
            old(self).wf() ==> final(self).wf(),
    {
        self.samples = VecDeque::new();
        assert(self@ =~= Seq::<i16>::empty());
    }

    /// Stereo frames currently queued.
    pub fn queued_frames(&self) -> (r: usize)
        ensures
            r == self@.len() / 2,
    {
        self.samples.len() / 2
    }

    /// Current emulation speed.
    pub fn speed(&self) -> (r: Speed)
        ensures
            r == self.published_speed(),
    {
        self.speed
    }

    /// Publish the current emulation speed.
    pub fn set_speed(&mut self, speed: Speed)
        ensures
            final(self)@ == old(self)@,
            final(self).capacity() == old(self).capacity(),
            final(self).scales_pitch() == old(self).scales_pitch(),
            final(self).published_speed() == speed,
    {
        self.speed = speed;
    }

    /// Whether sped-up playback needs pitch scaling on the consumer side.
    pub fn fast_forward_scales_pitch(&self) -> (r: bool)
        ensures
            r == self.scales_pitch(),
    {
        self.fast_forward_scales_pitch
    }

    /// Say whether sped-up playback needs pitch scaling on the consumer side.
    pub fn set_fast_forward_scales_pitch(&mut self, scales: bool)
        ensures
            final(self)@ == old(self)@,
            final(self).capacity() == old(self).capacity(),
            final(self).published_speed() == old(self).published_speed(),
            final(self).scales_pitch() == scales,
    {
        self.fast_forward_scales_pitch = scales;
    }

    fn trim(&mut self)
        requires
            old(self)@.len() % 2 == 0,
            old(self).capacity() <= usize::MAX / 2,
        ensures
            final(self).wf(),
            final(self)@ == newest_samples(old(self)@, 2 * old(self).capacity()),
            old(self).same_settings(*final(self)),
    {
        let ghost before = self@;
        let max: usize = self.max_frames * 2;
        let ghost mut dropped: int = 0;
        assert(before.skip(0) =~= before);
        while self.samples.len() > max
            invariant
                max == 2 * self.capacity(),
                0 <= dropped <= before.len(),
                self@ == before.skip(dropped),
                dropped > 0 ==> self@.len() >= max,
                old(self).same_settings(*self),
            decreases self.samples@.len(),
        {
            let _ = self.samples.pop_front();
            proof {
                dropped = dropped + 1;
                assert(self@ =~= before.skip(dropped));
            }
        }
    }
}

/// Latency never grows: however much is pushed, the ring holds no more than it may, and what it
/// holds is what was pushed last.
pub proof fn law_latency_is_bounded(before: Seq<i16>, pushed: Seq<i16>, capacity: nat)
    ensures
        newest_samples(before + pushed, 2 * capacity).len() <= 2 * capacity,
        pushed.len() <= 2 * capacity ==> pushed.is_suffix_of(
            newest_samples(before + pushed, 2 * capacity),
        ),
        pushed.len() >= 2 * capacity ==> newest_samples(before + pushed, 2 * capacity)
            == newest_samples(pushed, 2 * capacity),
{
    let kept = newest_samples(before + pushed, 2 * capacity);
    if pushed.len() <= 2 * capacity {
        assert(kept.subrange(kept.len() - pushed.len(), kept.len() as int) =~= pushed);
    }
    if pushed.len() >= 2 * capacity {
        assert(kept =~= newest_samples(pushed, 2 * capacity));
    }
}

/// A millisecond is forty-eight stereo frames, and the shortest ring holds one millisecond.
pub proof fn law_milliseconds_of_sound(ms: u32)
    requires
        48 * ms <= usize::MAX / 2,
    ensures
        ms > 0 ==> frames_in(ms) == 48 * ms,
        frames_in(0) == 48,
{
}

/// What a full ring drops is the oldest: what it keeps is the end of what was there followed by
/// what was pushed, in order.
pub proof fn law_the_oldest_samples_go_first(before: Seq<i16>, pushed: Seq<i16>, n: nat, k: int)
    requires
        0 <= k < newest_samples(before + pushed, n).len(),
    ensures
        ({
            let all = before + pushed;
            let kept = newest_samples(all, n);
            &&& kept.len() == (if all.len() <= n {
                all.len()
            } else {
                n
            })
            &&& kept[kept.len() - 1 - k] == all[all.len() - 1 - k]
        }),
{
}

} // verus!
