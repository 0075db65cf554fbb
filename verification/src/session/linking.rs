//! Plugging a link cable in, and pulling it.

use super::effects;
use super::following;
use super::state;
use super::state::{
    InputState, MonotonicTimestampProvider, PlaybackState, SuperShuckieCore, TogetherState,
    WriteModel,
};
use crate::emulator::console::{CoreCall, EmulatorCore};
use crate::emulator::link;
use crate::emulator::link::LinkError;
use crate::play_together::cable;
use crate::play_together::cable::{
    LinkFailure, LinkInbox, LinkPartnerState, LinkSettings, LinkState,
};
use crate::play_together::live::FollowerStats;
use crate::replay::packet;
use crate::text;
use vstd::prelude::*;
use vstd::string::*;

verus! {

/// What is wrong with where a console is.
pub open spec fn misplaced(
    before: Seq<char>,
    at: u64,
    between: Seq<char>,
    wanted: u64,
) -> Seq<char> {
    before + text::decimal(at as nat) + between + text::decimal(wanted as nat)
}

/// [`misplaced`].
fn misplacement(before: &str, at: u64, between: &str, wanted: u64) -> (r: String)
    ensures
        r@ == misplaced(before@, at, between@, wanted),
{
    let mut r: String = text::numbered(before, at, between);
    text::push_decimal(&mut r, wanted);
    r
}

impl<C: EmulatorCore, T: MonotonicTimestampProvider> SuperShuckieCore<C, T> {
    /// Whether this console is one end of a link cable.
    pub open spec fn linked(self) -> bool {
        self.together.link is Some || self.together.partner is Some
    }

    /// Whether this console is one end of a link cable (either side).
    pub fn is_linked(&self) -> (r: bool)
        ensures
            r == self.linked(),
    {
        self.together.link.is_some() || self.together.partner.is_some()
    }

    /// Whether the local console is held at a frame boundary for a link handshake (see
    /// [`link_hold`](Self::link_hold)).
    pub fn is_link_holding(&self) -> (r: bool)
        ensures
            r == self.together.holding,
    {
        self.together.holding
    }

    // -----------------------------------------------------------------------------------------
    // The handshake.

    /// Why the console cannot be held for a link.
    pub open spec fn hold_refused(self) -> Option<Seq<char>> {
        if self.playing_back() || self.playback.player is Some {
            Some("a replay is attached"@)
        } else if self.linked() {
            Some("already linked"@)
        } else if !self.core.identity().has_link_port {
            Some("this console has no link port"@)
        } else {
            None
        }
    }

    /// After finishing the frame and holding the console there.
    pub open spec fn held_at(self, after: Self, frame: u64, input: Seq<u8>) -> bool {
        exists|finished: Self| #[trigger]
            self.frame_finished(finished) && after == (SuperShuckieCore {
                together: TogetherState { holding: true, ..finished.together },
                ..finished
            }) && frame == finished.timer.frames && input == finished.core.encoded(
                finished.input.current,
            )
    }

    /// Stop at the next frame boundary and stay there (nothing runs until
    /// [`begin_link`](Self::begin_link) or [`link_release`](Self::link_release)): the first step of
    /// a link handshake. Returns the replay frame count the console is held at and the input it
    /// holds, which the partner needs.
    ///
    /// Refused while a replay is attached or the console is already linked.
    pub fn link_hold(&mut self) -> (r: Result<(u64, Vec<u8>), String>)
        requires
            old(self).wf(),
        ensures
            final(self).wf(),
            match old(self).hold_refused() {
                Some(why) => (r matches Err(e) && e@ == why) && *final(self) == *old(self),
                None => r matches Ok((frame, input)) && old(self).held_at(
                    *final(self),
                    frame,
                    input@,
                ),
            },
    {
        if self.is_playing_back() || self.has_replay_attached() {
            return Err("a replay is attached".to_owned());
        }
        if self.is_linked() {
            return Err("already linked".to_owned());
        }
        if !self.core.has_link_port() {
            return Err("this console has no link port".to_owned());
        }
        let ghost before = *self;
        self.finish_current_frame();
        assert(before.frame_finished(*self));
        self.together.holding = true;
        let input: Vec<u8> = self.core.encode_input(self.input.current);
        Ok((self.timer.frames, input))
    }

    /// Abandon a hold without linking.
    pub fn link_release(&mut self)
        ensures
            if old(self).together.holding {
                *final(self) == (SuperShuckieCore {
                    together: TogetherState { holding: false, ..old(self).together },
                    input: InputState { latched: false, ..old(self).input },
                    ..*old(self)
                })
            } else {
                *final(self) == *old(self)
            },
            old(self).wf() ==> final(self).wf(),
    {
        if self.together.holding {
            self.together.holding = false;
            self.input.latched = false;
        }
    }

    /// Why the cable cannot go in between this console and the partner's.
    pub open spec fn link_refused(self, partner: Self, settings: LinkSettings) -> Option<Seq<char>> {
        let family = cable::family(self.core.identity().console);
        if !self.together.holding {
            Some("the local console is not held for a link"@)
        } else if self.linked() || partner.linked() {
            Some("already linked"@)
        } else if self.core.mid_frame() || self.timer.frames != settings.local_start_frame {
            Some(
                misplaced(
                    "the local console is at frame "@,
                    self.timer.frames,
                    " rather than held at "@,
                    settings.local_start_frame,
                ),
            )
        } else if partner.together.follower is None {
            Some("the other player's game is not being followed"@)
        } else if partner.core.mid_frame() || partner.timer.frames
            != settings.partner_start_frame {
            Some(
                misplaced(
                    "the other player's game is at frame "@,
                    partner.timer.frames,
                    " rather than "@,
                    settings.partner_start_frame,
                ),
            )
        } else if family is None || family != cable::family(partner.core.identity().console) {
            Some("the two consoles cannot be linked to each other"@)
        } else if settings.delay_frames == 0 {
            Some("the input delay must be at least one frame"@)
        } else if !self.core.identity().has_link_port || !partner.core.identity().has_link_port {
            Some("one of the consoles has no link port"@)
        } else {
            None
        }
    }

    fn check_link(&self, partner: &Self, settings: &LinkSettings) -> (r: Result<(), String>)
        ensures
            match self.link_refused(*partner, *settings) {
                Some(why) => r matches Err(e) && e@ == why,
                None => r is Ok,
            },
    {
        if !self.together.holding {
            return Err("the local console is not held for a link".to_owned());
        }
        if self.is_linked() || partner.is_linked() {
            return Err("already linked".to_owned());
        }
        if self.core.is_mid_frame() || self.timer.frames != settings.local_start_frame {
            return Err(
                misplacement(
                    "the local console is at frame ",
                    self.timer.frames,
                    " rather than held at ",
                    settings.local_start_frame,
                ),
            );
        }
        if !partner.is_following() {
            return Err("the other player's game is not being followed".to_owned());
        }
        if partner.core.is_mid_frame() || partner.timer.frames != settings.partner_start_frame {
            return Err(
                misplacement(
                    "the other player's game is at frame ",
                    partner.timer.frames,
                    " rather than ",
                    settings.partner_start_frame,
                ),
            );
        }
        let family: Option<u8> = cable::link_family(self.core.replay_console_type());
        let other: Option<u8> = cable::link_family(partner.core.replay_console_type());
        let same: bool = match (family, other) {
            (Some(a), Some(b)) => a == b,
            _ => false,
        };
        if !same {
            return Err("the two consoles cannot be linked to each other".to_owned());
        }
        if settings.delay_frames == 0 {
            return Err("the input delay must be at least one frame".to_owned());
        }
        if !self.core.has_link_port() || !partner.core.has_link_port() {
            return Err("one of the consoles has no link port".to_owned());
        }
        Ok(())
    }

    /// With the cable offered to the core.
    pub open spec fn plugged(
        self,
        after: Self,
        first: bool,
        error: Option<link::ErrorModel>,
    ) -> bool {
        &&& after == (SuperShuckieCore { core: after.core, ..self })
        &&& after.core.mid_frame() == self.core.mid_frame()
        &&& self.asked(after, seq![CoreCall::Connect { first, error }])
    }

    /// With the cable offered to the partner's core.
    pub open spec fn partner_plugged(
        self,
        after: Self,
        settings: LinkSettings,
        error: Option<link::ErrorModel>,
    ) -> bool {
        self.plugged(after, !settings.local_is_first, error)
    }

    fn plug(&mut self, first: bool) -> (r: Result<(), LinkError>)
        ensures
            old(self).plugged(
                *final(self),
                first,
                crate::emulator::console::link_refusal(r),
            ),
            old(self).wf() ==> final(self).wf(),
    {
        let ghost before = *self;
        let r: Result<(), LinkError> = self.core.connect(first);
        assert(self.core.log() =~= before.core.log() + seq![
            CoreCall::Connect { first, error: crate::emulator::console::link_refusal(r) },
        ]);
        r
    }

    /// With the cable pulled from the core, if it has a port.
    pub open spec fn unplugged(self, after: Self) -> bool {
        if self.core.identity().has_link_port {
            &&& after == (SuperShuckieCore { core: after.core, ..self })
            &&& self.asked(after, seq![CoreCall::Disconnect])
        } else {
            after == self
        }
    }

    fn unplug(&mut self)
        ensures
            old(self).unplugged(*final(self)),
            old(self).wf() ==> final(self).wf(),
    {
        if self.core.has_link_port() {
            let ghost before = *self;
            self.core.disconnect();
            assert(self.core.log() =~= before.core.log() + seq![CoreCall::Disconnect]);
        }
    }

    /// The local console with the cable in: what was written while it was held goes onto the
    /// cable, for the first frame that can still be scheduled.
    pub open spec fn local_cabled(self, after: Self, settings: LinkSettings) -> bool {
        exists|cabled: Self, flushed: Self|
            #![trigger self.cable_laid(cabled, settings), cabled.writes_flushed(flushed)]
            self.cable_laid(cabled, settings) && cabled.writes_flushed(flushed) && (
            SuperShuckieCore {
                input: InputState { latched: false, ..flushed.input },
                ..flushed
            }).told(
                after,
                effects::only_if(flushed.audio.listening, effects::Out::ClearAudio),
            )
    }

    /// With a new cable, no longer held.
    pub open spec fn cable_laid(self, after: Self, settings: LinkSettings) -> bool {
        &&& after == (SuperShuckieCore {
            together: TogetherState {
                link: after.together.link,
                holding: false,
                ..self.together
            },
            ..self
        })
        &&& after.together.link is Some
        &&& after.together.link->Some_0.plugged_in(
            settings,
            self.core.encoded(self.input.current),
            self.input.current,
        )
    }

    fn lay_cable(&mut self, settings: LinkSettings)
        requires
            old(self).wf(),
        ensures
            final(self).wf(),
            old(self).local_cabled(*final(self), settings),
    {
        let ghost before = *self;
        let held: Vec<u8> = self.core.encode_input(self.input.current);
        let link: LinkState = LinkState::new(settings, &held, self.input.current);
        self.together.link = Some(link);
        self.together.holding = false;
        let ghost cabled = *self;
        proof {
            assert(before.cable_laid(cabled, settings));
        }
        self.flush_writes();
        let ghost flushed = *self;
        assert(cabled.writes_flushed(flushed));
        self.input.latched = false;
        self.clear_audio();
    }

    /// The partner's console with the cable in.
    pub open spec fn partner_cabled(
        self,
        after: Self,
        settings: LinkSettings,
        inbox: LinkInbox,
    ) -> bool {
        &&& after == (SuperShuckieCore {
            together: TogetherState { partner: after.together.partner, ..self.together },
            playback: PlaybackState {
                waiting: false,
                stalled: false,
                frame_pending: false,
                ..self.playback
            },
            input: InputState { latched: false, ..self.input },
            effects: after.effects,
            ..self
        })
        &&& after.together.partner matches Some(p) && p.inbox == inbox && p.delay
            == settings.delay_frames && p.prefill_input@ == settings.partner_start_input@
            && p.frame == 0 && !p.frame_prepared
        &&& after.outs() == self.outs() + effects::only_if(
            self.audio.listening,
            effects::Out::ClearAudio,
        )
    }

    fn lay_partner_cable(&mut self, delay: u64, prefill_input: Vec<u8>, inbox: LinkInbox)
        requires
            old(self).wf(),
        ensures
            final(self).wf(),
            forall|settings: LinkSettings|
                settings.delay_frames == delay && settings.partner_start_input@ == prefill_input@
                    ==> #[trigger] old(self).partner_cabled(*final(self), settings, inbox),
    {
        self.together.partner = Some(
            LinkPartnerState { inbox, delay, prefill_input, frame: 0, frame_prepared: false },
        );
        self.playback.waiting = false;
        self.playback.stalled = false;
        self.playback.frame_pending = false;
        self.input.latched = false;
        self.clear_audio();
    }

    /// After trying to plug the cable in between this console and the partner's.
    pub open spec fn link_tried(
        self,
        partner: Self,
        after: Self,
        partner_after: Self,
        settings: LinkSettings,
        inbox: LinkInbox,
        r: Result<(), String>,
    ) -> bool {
        match self.link_refused(partner, settings) {
            Some(why) => {
                &&& r matches Err(e) && e@ == why
                &&& after == self
                &&& partner_after == partner
            },
            None => exists|plugged: Self, error: Option<link::ErrorModel>| #[trigger]
                self.plugged(plugged, settings.local_is_first, error) && match error {
                    Some(e) => {
                        &&& r matches Err(why) && why@ == "cannot plug the local console in: "@
                            + e.text()
                        &&& after == plugged
                        &&& partner_after == partner
                    },
                    None => plugged.partner_tried(
                        partner,
                        after,
                        partner_after,
                        settings,
                        inbox,
                        r,
                    ),
                },
        }
    }

    /// After trying to plug the cable into the partner's console, the local one having it.
    pub open spec fn partner_tried(
        self,
        partner: Self,
        after: Self,
        partner_after: Self,
        settings: LinkSettings,
        inbox: LinkInbox,
        r: Result<(), String>,
    ) -> bool {
        exists|plugged: Self, error: Option<link::ErrorModel>| #[trigger]
            partner.partner_plugged(plugged, settings, error) && match error {
                Some(e) => {
                    &&& r matches Err(why) && why@
                        == "cannot plug the other player's console in: "@ + e.text()
                    &&& self.unplugged(after)
                    &&& partner_after == plugged
                },
                None => {
                    &&& r is Ok
                    &&& self.local_cabled(after, settings)
                    &&& plugged.partner_cabled(partner_after, settings, inbox)
                },
            }
    }

    /// Plug the cable in between this (held) console and `partner`, the copy of the other player's,
    /// which must sit exactly at `settings.partner_start_frame`.
    ///
    /// From here on the pair is stepped with [`run_linked`](Self::run_linked) only.
    pub fn begin_link(
        &mut self,
        partner: &mut Self,
        settings: LinkSettings,
        inbox: LinkInbox,
    ) -> (r: Result<(), String>)
        requires
            old(self).wf(),
            old(partner).wf(),
        ensures
            final(self).wf(),
            final(partner).wf(),
            old(self).link_tried(
                *old(partner),
                *final(self),
                *final(partner),
                settings,
                inbox,
                r,
            ),
    {
        let ghost before = *self;
        let ghost partner_before = *partner;
        if let Err(why) = self.check_link(partner, &settings) {
            return Err(why);
        }
        let first: bool = settings.local_is_first;
        let local: Result<(), LinkError> = self.plug(first);
        let ghost plugged = *self;
        assert(before.plugged(
            plugged,
            settings.local_is_first,
            crate::emulator::console::link_refusal(local),
        ));
        if let Err(e) = local {
            let message: String = e.message();
            return Err(text::joined("cannot plug the local console in: ", message.as_str()));
        }
        let other: Result<(), LinkError> = partner.plug(!first);
        assert(partner_before.partner_plugged(
            *partner,
            settings,
            crate::emulator::console::link_refusal(other),
        ));
        if let Err(e) = other {
            let message: String = e.message();
            self.unplug();
            let r: Result<(), String> = Err(
                text::joined("cannot plug the other player's console in: ", message.as_str()),
            );
            assert(plugged.partner_tried(
                partner_before,
                *self,
                *partner,
                settings,
                inbox,
                r,
            ));
            return r;
        }
        let delay: u64 = settings.delay_frames;
        let prefill_input: Vec<u8> = packet::copy_bytes(&settings.partner_start_input);
        let ghost given = settings;
        let ghost arrivals = inbox;
        let ghost partner_plugged = *partner;
        self.lay_cable(settings);
        partner.lay_partner_cable(delay, prefill_input, inbox);
        let r: Result<(), String> = Ok(());
        proof {
            assert(partner_plugged.partner_cabled(*partner, given, arrivals));
            assert(plugged.partner_tried(partner_before, *self, *partner, given, arrivals, r));
        }
        r
    }

    // -----------------------------------------------------------------------------------------
    // Pulling the cable.

    /// The local console without the cable: the inputs still scheduled are dropped.
    pub open spec fn local_freed(self, after: Self) -> bool {
        &&& after == (SuperShuckieCore {
            together: TogetherState { link: None, holding: false, ..self.together },
            input: InputState { latched: false, ..self.input },
            writes: after.writes,
            effects: after.effects,
            ..self
        })
        &&& after.waiting_writes() == Seq::<WriteModel>::empty()
        &&& after.outs() == self.outs() + effects::only_if(
            self.audio.listening,
            effects::Out::ClearAudio,
        )
    }

    fn free_local(&mut self)
        requires
            old(self).wf(),
        ensures
            final(self).wf(),
            old(self).local_freed(*final(self)),
    {
        self.together.link = None;
        self.together.holding = false;
        self.input.latched = false;
        self.writes = Vec::new();
        assert(self.waiting_writes() =~= Seq::<WriteModel>::empty());
        self.clear_audio();
    }

    /// The partner's console without the cable: its stream is read again, which waits for a fresh
    /// snapshot.
    pub open spec fn partner_freed(self, after: Self) -> bool {
        &&& after == (SuperShuckieCore {
            together: TogetherState {
                partner: None,
                follower: match self.together.follower {
                    Some(f) => Some(
                        following::with_stats(
                            f,
                            FollowerStats { waiting: true, ..f.source.stats },
                        ),
                    ),
                    None => None,
                },
                ..self.together
            },
            input: InputState { latched: false, ..self.input },
            playback: PlaybackState { frame_pending: false, waiting: false, ..self.playback },
            effects: after.effects,
            ..self
        })
        &&& after.outs() == self.outs() + effects::only_if(
            self.audio.listening,
            effects::Out::ClearAudio,
        )
    }

    fn free_partner(&mut self)
        requires
            old(self).wf(),
        ensures
            final(self).wf(),
            old(self).partner_freed(*final(self)),
    {
        proof {
            reveal(state::follower_wf);
        }
        self.together.partner = None;
        self.input.latched = false;
        self.playback.frame_pending = false;
        // The partner's frame in progress (its inputs were applied) may finish on its own; at the
        // next boundary its stream is read again, which waits for the fresh snapshot.
        self.playback.waiting = false;
        if let Some(mut follower) = self.together.follower.take() {
            follower.source.stats.waiting = true;
            self.together.follower = Some(follower);
        }
        self.clear_audio();
    }

    /// Pull the cable: both consoles see no cable from here on, the local console runs alone under
    /// the user's input again (the inputs still scheduled are dropped), and the partner's copy
    /// waits for a fresh snapshot from their stream (the caller re-subscribes).
    pub fn end_link(&mut self, partner: &mut Self)
        requires
            old(self).wf(),
            old(partner).wf(),
        ensures
            final(self).wf(),
            final(partner).wf(),
            exists|unplugged: Self| #[trigger]
                old(self).unplugged(unplugged) && unplugged.local_freed(*final(self)),
            exists|unplugged: Self| #[trigger]
                old(partner).unplugged(unplugged) && unplugged.partner_freed(*final(partner)),
    {
        let ghost before = *self;
        let ghost partner_before = *partner;
        self.unplug();
        let ghost unplugged = *self;
        partner.unplug();
        let ghost partner_unplugged = *partner;
        self.free_local();
        partner.free_partner();
        assert(before.unplugged(unplugged));
        assert(partner_before.unplugged(partner_unplugged));
    }

    // -----------------------------------------------------------------------------------------
    // How the link is doing.

    /// The failure that ended (or is about to end) the link, if any.
    pub fn link_failure(&self) -> (r: Option<LinkFailure>)
        ensures
            match self.together.link {
                Some(l) => match l.failure {
                    Some(failure) => r matches Some(f) && f@ == failure@,
                    None => r is None,
                },
                None => r is None,
            },
    {
        match &self.together.link {
            Some(l) => match &l.failure {
                Some(failure) => Some(failure.duplicate()),
                None => None,
            },
            None => None,
        }
    }

    /// The local console's link frames completed, and the frames ahead its inputs are sent.
    pub fn link_progress(&self) -> (r: Option<(u64, u64)>)
        ensures
            r == (match self.together.link {
                Some(l) => Some((l.frame, l.settings.delay_frames)),
                None => None,
            }),
    {
        match &self.together.link {
            Some(l) => Some((l.frame, l.settings.delay_frames)),
            None => None,
        }
    }

    /// Whether the last [`run_linked`](Self::run_linked) stalled.
    pub fn is_link_stalled(&self) -> (r: bool)
        ensures
            r == (self.together.link matches Some(l) && l.stalled),
    {
        match &self.together.link {
            Some(l) => l.stalled,
            None => false,
        }
    }

    /// With the local side of the cable replaced.
    pub open spec fn with_link(self, link: Option<LinkState>) -> Self {
        SuperShuckieCore { together: TogetherState { link, ..self.together }, ..self }
    }

    /// Whether the local console's linked steps pace themselves at the game's speed (the default)
    /// or run as fast as they can (headless tools). Does nothing unless linked.
    pub fn set_link_paced(&mut self, paced: bool)
        ensures
            *final(self) == (match old(self).together.link {
                Some(l) => old(self).with_link(Some(LinkState { paced, ..l })),
                None => *old(self),
            }),
            old(self).wf() ==> final(self).wf(),
    {
        if let Some(mut link) = self.together.link.take() {
            link.paced = paced;
            self.together.link = Some(link);
        }
    }

    /// Recorded link traffic that could not be delivered where it was recorded (a desync indicator
    /// on a follower or a replay); 0 without a port.
    pub fn serial_replay_misses(&self) -> (r: u64)
        ensures
            !self.core.identity().has_link_port ==> r == 0,
            self.core.identity().has_link_port ==> r == self.core.missed_serial(),
    {
        if self.core.has_link_port() {
            self.core.serial_replay_misses()
        } else {
            0
        }
    }

    /// The partner's link frame about to run.
    pub fn link_partner_frame(&self) -> (r: Option<u64>)
        ensures
            r == (match self.together.partner {
                Some(p) => Some(p.frame),
                None => None,
            }),
    {
        match &self.together.partner {
            Some(p) => Some(p.frame),
            None => None,
        }
    }
}

/// A cable that was refused changes neither session, and one that could not be plugged into the
/// partner's console is not left in the local one.
pub proof fn law_no_half_plugged_cables<C: EmulatorCore, T: MonotonicTimestampProvider>(
    local: SuperShuckieCore<C, T>,
    partner: SuperShuckieCore<C, T>,
    after: SuperShuckieCore<C, T>,
    partner_after: SuperShuckieCore<C, T>,
    settings: LinkSettings,
    inbox: LinkInbox,
    why: String,
)
    requires
        local.link_tried(partner, after, partner_after, settings, inbox, Err(why)),
        !local.linked(),
        !partner.linked(),
    ensures
        !after.linked(),
        !partner_after.linked(),
        after.together.holding == local.together.holding,
        local.core.log() != after.core.log() && partner.core.log() != partner_after.core.log()
            ==> after.core.log().last() == CoreCall::Disconnect,
{
}

} // verus!
