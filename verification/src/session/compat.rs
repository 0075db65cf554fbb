//! Whether a replay fits the console that is running.

use super::state::{MonotonicTimestampProvider, SuperShuckieCore};
use crate::emulator::console;
use crate::emulator::console::EmulatorCore;
use crate::play_together::cable::same_hash;
use crate::replay::player;
use crate::replay::player::{ReplayConsoleType, ReplayFileMetadata};
use crate::text;
use vstd::prelude::*;
use vstd::string::*;

verus! {

/// Describes a metadata mismatch.
#[derive(Clone, Debug)]
pub enum ReplayPlayerMetadataMismatchKind {
    ROMChecksumMismatch { replay: [u8; 32], loaded: [u8; 32] },
    BIOSChecksumMismatch { replay: [u8; 32], loaded: [u8; 32] },
    CoreMismatch { replay: String, loaded: String },
}

/// A metadata mismatch, as the contracts see it.
pub ghost enum MismatchModel {
    ROMChecksumMismatch { replay: Seq<u8>, loaded: Seq<u8> },
    BIOSChecksumMismatch { replay: Seq<u8>, loaded: Seq<u8> },
    CoreMismatch { replay: Seq<char>, loaded: Seq<char> },
}

impl View for ReplayPlayerMetadataMismatchKind {
    type V = MismatchModel;

    open spec fn view(&self) -> MismatchModel {
        match *self {
            ReplayPlayerMetadataMismatchKind::ROMChecksumMismatch { replay, loaded } =>
            MismatchModel::ROMChecksumMismatch { replay: replay@, loaded: loaded@ },
            ReplayPlayerMetadataMismatchKind::BIOSChecksumMismatch { replay, loaded } =>
            MismatchModel::BIOSChecksumMismatch { replay: replay@, loaded: loaded@ },
            ReplayPlayerMetadataMismatchKind::CoreMismatch { replay, loaded } =>
            MismatchModel::CoreMismatch { replay: replay@, loaded: loaded@ },
        }
    }
}

/// Mismatches, as the contracts see them.
pub open spec fn mismatch_models(issues: Seq<ReplayPlayerMetadataMismatchKind>) -> Seq<
    MismatchModel,
> {
    Seq::new(issues.len(), |i: int| issues[i]@)
}

/// A checksum mismatch in words, given what is checked and both checksums in words.
pub open spec fn checksum_text(what: Seq<char>, replay: Seq<char>, loaded: Seq<char>) -> Seq<char> {
    what + " checksum mismatch! Either the wrong "@ + what
        + " is loaded, or it was modified.\n\n  Replay: "@ + replay + "\n  Loaded: "@ + loaded
        + "\n\nThis can cause potential desyncs."@
}

/// A core mismatch in words.
pub open spec fn core_text(replay: Seq<char>, loaded: Seq<char>) -> Seq<char> {
    "ROM core mismatch! Different cores or different versions of cores were used.\n\n  Replay: "@
        + replay + "\n  Loaded: "@ + loaded
        + "\n\nThis can cause potential desyncs UNLESS both cores have equal accuracy."@
}

impl MismatchModel {
    /// The mismatch in words; checksums are given in words.
    pub open spec fn text(self, replay_ascii: Seq<char>, loaded_ascii: Seq<char>) -> Seq<char> {
        match self {
            MismatchModel::ROMChecksumMismatch { .. } => checksum_text(
                "ROM"@,
                replay_ascii,
                loaded_ascii,
            ),
            MismatchModel::BIOSChecksumMismatch { .. } => checksum_text(
                "BIOS"@,
                replay_ascii,
                loaded_ascii,
            ),
            MismatchModel::CoreMismatch { replay, loaded } => core_text(replay, loaded),
        }
    }
}

fn push_text(into: &mut String, more: &str)
    ensures
        final(into)@ == old(into)@ + more@,
{
    into.append(more);
}

impl ReplayPlayerMetadataMismatchKind {
    /// The mismatch in words; the two checksums are given in words.
    pub fn message(&self, replay_ascii: &str, loaded_ascii: &str) -> (r: String)
        ensures
            r@ == self@.text(replay_ascii@, loaded_ascii@),
    {
        match self {
            ReplayPlayerMetadataMismatchKind::CoreMismatch { replay, loaded } => {
                let mut out: String =
                    "ROM core mismatch! Different cores or different versions of cores were used.\n\n  Replay: ".to_owned();
                push_text(&mut out, replay.as_str());
                push_text(&mut out, "\n  Loaded: ");
                push_text(&mut out, loaded.as_str());
                push_text(
                    &mut out,
                    "\n\nThis can cause potential desyncs UNLESS both cores have equal accuracy.",
                );
                out
            },
            ReplayPlayerMetadataMismatchKind::ROMChecksumMismatch { .. } => checksum_message(
                "ROM",
                replay_ascii,
                loaded_ascii,
            ),
            ReplayPlayerMetadataMismatchKind::BIOSChecksumMismatch { .. } => checksum_message(
                "BIOS",
                replay_ascii,
                loaded_ascii,
            ),
        }
    }
}

fn checksum_message(what: &str, replay: &str, loaded: &str) -> (r: String)
    ensures
        r@ == checksum_text(what@, replay@, loaded@),
{
    let mut out: String = what.to_owned();
    push_text(&mut out, " checksum mismatch! Either the wrong ");
    push_text(&mut out, what);
    push_text(&mut out, " is loaded, or it was modified.\n\n  Replay: ");
    push_text(&mut out, replay);
    push_text(&mut out, "\n  Loaded: ");
    push_text(&mut out, loaded);
    push_text(&mut out, "\n\nThis can cause potential desyncs.");
    out
}

/// Why a replay could not be attached.
#[derive(Clone, Debug)]
pub enum ReplayPlayerAttachError {
    /// Metadata is mismatched. It may desync.
    MismatchedMetadata { issues: Vec<ReplayPlayerMetadataMismatchKind> },
    /// The replay cannot be played on this console at all.
    Incompatible { description: String },
    /// The replay is otherwise compatible, but could not actually be positioned at its first
    /// keyframe. The core is left detached: nothing was left half-attached.
    Failed { description: String },
}

/// Why a replay could not be attached, as the contracts see it.
pub ghost enum AttachErrorModel {
    MismatchedMetadata { issues: Seq<MismatchModel> },
    Incompatible { description: Seq<char> },
    Failed { description: Seq<char> },
}

impl View for ReplayPlayerAttachError {
    type V = AttachErrorModel;

    open spec fn view(&self) -> AttachErrorModel {
        match *self {
            ReplayPlayerAttachError::MismatchedMetadata { issues } =>
            AttachErrorModel::MismatchedMetadata { issues: mismatch_models(issues@) },
            ReplayPlayerAttachError::Incompatible { description } =>
            AttachErrorModel::Incompatible { description: description@ },
            ReplayPlayerAttachError::Failed { description } => AttachErrorModel::Failed {
                description: description@,
            },
        }
    }
}

/// The texts of mismatches, each set off from what comes before it.
pub open spec fn issue_texts(issues: Seq<Seq<char>>, n: nat) -> Seq<char>
    decreases n,
{
    if n == 0 {
        Seq::empty()
    } else {
        issue_texts(issues, (n - 1) as nat) + "\n\n"@ + issues[n - 1]
    }
}

/// The views of texts.
pub open spec fn texts_of(issues: Seq<String>) -> Seq<Seq<char>> {
    Seq::new(issues.len(), |i: int| issues[i]@)
}

impl ReplayPlayerAttachError {
    /// The error in words; the issues of a mismatch are given in words.
    pub fn message(&self, issues: &Vec<String>) -> (r: String)
        ensures
            r@ == (match self@ {
                AttachErrorModel::MismatchedMetadata { .. } =>
                "This replay file has mismatched data which may prevent playback:"@ + issue_texts(
                    texts_of(issues@),
                    issues@.len(),
                ),
                AttachErrorModel::Incompatible { description } =>
                "This replay file is incompatible:\n\n"@ + description,
                AttachErrorModel::Failed { description } =>
                "This replay could not be loaded:\n\n"@ + description,
            }),
    {
        match self {
            ReplayPlayerAttachError::MismatchedMetadata { .. } => {
                let mut out: String =
                    "This replay file has mismatched data which may prevent playback:".to_owned();
                let ghost start = out@;
                let ghost texts = texts_of(issues@);
                let mut i: usize = 0;
                assert(start + issue_texts(texts, 0) =~= start);
                while i < issues.len()
                    invariant
                        i <= issues@.len(),
                        texts == texts_of(issues@),
                        out@ == start + issue_texts(texts, i as nat),
                    decreases issues@.len() - i,
                {
                    push_text(&mut out, "\n\n");
                    push_text(&mut out, issues[i].as_str());
                    i = i + 1;
                    assert(out@ =~= start + issue_texts(texts, i as nat));
                }
                out
            },
            ReplayPlayerAttachError::Incompatible { description } => text::joined(
                "This replay file is incompatible:\n\n",
                description.as_str(),
            ),
            ReplayPlayerAttachError::Failed { description } => text::joined(
                "This replay could not be loaded:\n\n",
                description.as_str(),
            ),
        }
    }
}

/// Why a replay of one console does not play on another, in words.
pub open spec fn console_mismatch(replay: ReplayConsoleType, running: Option<ReplayConsoleType>) -> Seq<
    char,
> {
    "Console types don't match! (replay: "@ + player::console_text(replay) + ", rom: "@ + (
    match running {
        Some(console) => "Some("@ + player::console_text(console) + ")"@,
        None => "None"@,
    }) + ")"@
}

/// What of a replay's metadata does not match the running core, in order.
pub open spec fn mismatches(metadata: ReplayFileMetadata, running: console::Identity) -> Seq<
    MismatchModel,
> {
    let rom = if metadata.rom_checksum@ != running.rom_checksum@ {
        seq![
            MismatchModel::ROMChecksumMismatch {
                replay: metadata.rom_checksum@,
                loaded: running.rom_checksum@,
            },
        ]
    } else {
        Seq::empty()
    };
    let bios = if metadata.bios_checksum@ != running.bios_checksum@ {
        seq![
            MismatchModel::BIOSChecksumMismatch {
                replay: metadata.bios_checksum@,
                loaded: running.bios_checksum@,
            },
        ]
    } else {
        Seq::empty()
    };
    let name = if metadata.emulator_core_name@ != running.name {
        seq![
            MismatchModel::CoreMismatch {
                replay: metadata.emulator_core_name@,
                loaded: running.name,
            },
        ]
    } else {
        Seq::empty()
    };
    rom + bios + name
}

/// Why a replay does not fit the running core: another console never does, other metadata only if
/// that is not allowed.
pub open spec fn misfit(
    metadata: ReplayFileMetadata,
    running: console::Identity,
    allow_mismatched: bool,
) -> Option<AttachErrorModel> {
    if running.console != Some(metadata.console_type) {
        Some(
            AttachErrorModel::Incompatible {
                description: console_mismatch(metadata.console_type, running.console),
            },
        )
    } else if !allow_mismatched && mismatches(metadata, running).len() > 0 {
        Some(AttachErrorModel::MismatchedMetadata { issues: mismatches(metadata, running) })
    } else {
        None
    }
}

impl<C: EmulatorCore, T: MonotonicTimestampProvider> SuperShuckieCore<C, T> {
    /// Whether a replay fits the running core.
    pub fn check_replay_compat(&self, metadata: &ReplayFileMetadata, allow_mismatched: bool) -> (r:
        Result<(), ReplayPlayerAttachError>)
        ensures
            match misfit(*metadata, self.core.identity(), allow_mismatched) {
                Some(why) => r matches Err(e) && e@ == why,
                None => r is Ok,
            },
    {
        let running: Option<ReplayConsoleType> = self.core.replay_console_type();
        let same: bool = match running {
            Some(console) => console == metadata.console_type,
            None => false,
        };
        if !same {
            let mut description: String = "Console types don't match! (replay: ".to_owned();
            push_text(&mut description, metadata.console_type.text());
            push_text(&mut description, ", rom: ");
            match running {
                Some(console) => {
                    let mut known: String = "Some(".to_owned();
                    push_text(&mut known, console.text());
                    push_text(&mut known, ")");
                    push_text(&mut description, known.as_str());
                },
                None => {
                    push_text(&mut description, "None");
                },
            }
            push_text(&mut description, ")");
            return Err(ReplayPlayerAttachError::Incompatible { description });
        }
        if allow_mismatched {
            return Ok(());
        }
        let mut issues: Vec<ReplayPlayerMetadataMismatchKind> = Vec::new();
        let rom: [u8; 32] = self.core.rom_checksum();
        let bios: [u8; 32] = self.core.bios_checksum();
        let name: String = self.core.core_name().to_owned();
        assert(mismatch_models(issues@) =~= Seq::empty());
        if !same_hash(&metadata.rom_checksum, &rom) {
            issues.push(
                ReplayPlayerMetadataMismatchKind::ROMChecksumMismatch {
                    replay: metadata.rom_checksum,
                    loaded: rom,
                },
            );
            assert(mismatch_models(issues@) =~= seq![
                MismatchModel::ROMChecksumMismatch {
                    replay: metadata.rom_checksum@,
                    loaded: rom@,
                },
            ]);
        }
        let ghost with_rom = mismatch_models(issues@);
        if !same_hash(&metadata.bios_checksum, &bios) {
            issues.push(
                ReplayPlayerMetadataMismatchKind::BIOSChecksumMismatch {
                    replay: metadata.bios_checksum,
                    loaded: bios,
                },
            );
            assert(mismatch_models(issues@) =~= with_rom + seq![
                MismatchModel::BIOSChecksumMismatch {
                    replay: metadata.bios_checksum@,
                    loaded: bios@,
                },
            ]);
        } else {
            assert(with_rom + Seq::<MismatchModel>::empty() =~= with_rom);
        }
        let ghost with_bios = mismatch_models(issues@);
        if metadata.emulator_core_name != name {
            issues.push(
                ReplayPlayerMetadataMismatchKind::CoreMismatch {
                    replay: metadata.emulator_core_name.clone(),
                    loaded: name,
                },
            );
            assert(mismatch_models(issues@) =~= with_bios + seq![
                MismatchModel::CoreMismatch {
                    replay: metadata.emulator_core_name@,
                    loaded: self.core.identity().name,
                },
            ]);
        } else {
            assert(with_bios + Seq::<MismatchModel>::empty() =~= with_bios);
        }
        assert(mismatch_models(issues@) == mismatches(*metadata, self.core.identity()));
        assert(mismatch_models(issues@).len() == issues@.len());
        if issues.len() > 0 {
            return Err(ReplayPlayerAttachError::MismatchedMetadata { issues });
        }
        Ok(())
    }
}

/// A replay recorded on the same console with the same ROM, BIOS and core always fits; with other
/// metadata of the same console it fits exactly if that is allowed.
pub proof fn law_replays_of_the_same_game_fit(
    metadata: ReplayFileMetadata,
    running: console::Identity,
    allow_mismatched: bool,
)
    requires
        running.console == Some(metadata.console_type),
    ensures
        metadata.rom_checksum@ == running.rom_checksum@ && metadata.bios_checksum@
            == running.bios_checksum@ && metadata.emulator_core_name@ == running.name ==> misfit(
            metadata,
            running,
            allow_mismatched,
        ) is None,
        metadata.rom_checksum@ != running.rom_checksum@ || metadata.bios_checksum@
            != running.bios_checksum@ || metadata.emulator_core_name@ != running.name ==> (misfit(
            metadata,
            running,
            allow_mismatched,
        ) is None <==> allow_mismatched),
{
}

} // verus!
