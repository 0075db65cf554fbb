//! The session core under a memory monitor.

use super::effects;
use super::fidelity;
use super::running;
use super::state;
use super::state::{MonotonicTimestampProvider, SuperShuckieCore};
use crate::emulator::console::{CoreCall, EmulatorCore};
use crate::emulator::memory;
use crate::memory_monitor::local::MonitoredCore;
use crate::play_together::cable;
use crate::replay::packet;
use vstd::prelude::*;

verus! {

impl<C: EmulatorCore, T: MonotonicTimestampProvider> MonitoredCore for SuperShuckieCore<C, T> {
    type Memory = C;

    open spec fn valid(&self) -> bool {
        self.wf()
    }

    open spec fn image(&self) -> memory::MemoryImage {
        self.core.image()
    }

    open spec fn frame_count(&self) -> u64 {
        self.timer.frames
    }

    open spec fn epoch(&self) -> u64 {
        self.runs.epoch
    }

    open spec fn mid_frame(&self) -> bool {
        self.core.mid_frame()
    }

    open spec fn playing_back(&self) -> bool {
        SuperShuckieCore::playing_back(*self)
    }

    /// The frame is stepped to its end.
    open spec fn finished(&self, after: &Self) -> bool {
        self.frame_finished(*after)
    }

    /// The write is enqueued, and so recorded, unless a replay is being played back.
    open spec fn wrote(&self, after: &Self, address: u32, data: Seq<u8>, written: bool) -> bool {
        &&& written == !SuperShuckieCore::playing_back(*self)
        &&& !written ==> *after == *self
        &&& written ==> self.write_enqueued(*after, address, data)
    }

    /// The write is enqueued unless a replay is being played back or it would change nothing.
    open spec fn wrote_if_changed(
        &self,
        after: &Self,
        address: u32,
        data: Seq<u8>,
        written: bool,
    ) -> bool {
        &&& written == (!SuperShuckieCore::playing_back(*self) && self.differs_at(
            address,
            data,
        ))
        &&& !written ==> *after == *self
        &&& written ==> self.write_enqueued(*after, address, data)
    }

    fn emulator(&self) -> (r: &C) {
        self.get_core()
    }

    fn frame(&self) -> (r: u64) {
        self.total_frames()
    }

    fn state_epoch(&self) -> (r: u64) {
        self.state_epoch()
    }

    fn is_mid_frame(&self) -> (r: bool) {
        self.is_mid_frame()
    }

    fn is_playing_back(&self) -> (r: bool) {
        self.is_playing_back()
    }

    fn finish_current_frame(&mut self) {
        self.finish_current_frame();
    }

    fn write(&mut self, address: u32, data: &[u8]) -> (r: bool) {
        let mut bytes: Vec<u8> = Vec::new();
        bytes.extend_from_slice(data);
        assert(bytes@ =~= data@);
        self.enqueue_write(address, bytes)
    }

    fn write_if_changed(&mut self, address: u32, data: &[u8]) -> (r: bool) {
        self.write_if_changed(address, data)
    }
}

/// What a memory tool wrote waits while nothing may be written (a frame is under way, the console is
/// held). Otherwise it goes onto the cable of a linked console, last of what is scheduled; without a
/// cable it is handed to the console right away, and recorded in a session that is recorded if the
/// console took it.
pub proof fn law_what_tools_write_is_recorded<C: EmulatorCore, T: MonotonicTimestampProvider>(
    before: SuperShuckieCore<C, T>,
    after: SuperShuckieCore<C, T>,
    address: u32,
    data: Seq<u8>,
)
    requires
        before.wrote(&after, address, data, true) || before.wrote_if_changed(
            &after,
            address,
            data,
            true,
        ),
    ensures
        before.holds_writes() ==> after.waiting_writes() == before.waiting_writes().push(
            state::WriteModel { address, data },
        ),
        !before.holds_writes() && before.together.link is Some ==> {
            &&& after.together.link matches Some(l)
            &&& l.scheduled(l.next_send_frame).len() > 0
            &&& l.scheduled(l.next_send_frame).last() == (packet::PacketModel::WriteMemory {
                address: address as u64,
                data,
            })
        },
        !before.holds_writes() && before.together.link is None ==> {
            &&& after.core.log().len() > before.core.log().len()
            &&& after.core.log().last() matches CoreCall::WriteRam {
                address: at,
                data: given,
                written,
            }
            &&& at == address
            &&& given == data
            &&& before.recorder.active && written ==> after.outs().skip(
                before.outs().len() as int,
            ).contains(effects::Out::RecordWrite { address: address as u64, data })
        },
{
    let queued = choose|queued: SuperShuckieCore<C, T>| #[trigger]
        before.write_queued(queued, address, data) && queued.writes_flushed(after);
    let writes = queued.waiting_writes();
    assert(writes.last() == state::WriteModel { address, data });
    if !before.holds_writes() && before.together.link is Some {
        let steps = choose|steps: Seq<cable::LinkState>|
            steps.len() == writes.len() + 1 && #[trigger] running::scheduled_in_steps(
                steps,
                queued.together.link->Some_0,
                after.together.link->Some_0,
                writes,
            );
        let n = steps.len() - 1;
        assert(steps[n - 1].with_scheduled(
            steps[n],
            packet::PacketModel::WriteMemory { address: address as u64, data },
        ));
    } else if !before.holds_writes() {
        let written = choose|written: Seq<bool>| #[trigger] queued.writes_applied(after, written);
        assert(after.core.log().last() == running::write_calls(
            writes,
            written,
            writes.len(),
        ).last());
        if before.recorder.active {
            fidelity::law_taken_writes_are_recorded(queued, after, written, written.len() - 1);
        }
    }
}

} // verus!
