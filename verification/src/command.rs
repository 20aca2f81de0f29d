//! Audio commands: which sound channels a stop, a release or a play acts on.
//!
//! The decision is made here from a snapshot of the channels; the engine then
//! carries out the steps in order.

use vstd::prelude::*;

verus! {

/// Where a sound goes.
#[derive(Debug, Clone, Copy, PartialEq, Eq, Structural)]
pub enum SfxDest {
    /// The first free channel.
    Any,
    /// Every channel.
    All,
    /// One channel by number.
    Channel(u8),
    /// The channels whose bit is set, lowest first.
    ChannelMask(u8),
}

/// How a sound plays back (the kinds of the engine's playback modes).
#[derive(Debug, Clone, Copy, PartialEq, Eq, Structural)]
pub enum PlaybackKind {
    Once,
    Loop,
    Despawn,
    Remove,
}

/// What is played: a sound effect, which can be made stoppable, or any other source.
#[derive(Debug, Clone, Copy, PartialEq, Eq, Structural)]
pub enum AudioKind {
    Sfx,
    Source,
}

/// A sink that plays on a channel.
#[derive(Debug, Clone, Copy, PartialEq, Eq, Structural)]
pub struct SinkState {
    pub paused: bool,
    pub empty: bool,
}

/// What the engine knows of a channel when a command runs.
#[derive(Debug, Clone, Copy, PartialEq, Eq, Structural)]
pub struct ChannelState {
    /// The sink on the channel, if any.
    pub sink: Option<SinkState>,
    /// The playback mode of the channel's settings, if it has settings.
    pub mode: Option<PlaybackKind>,
    /// Whether a looping sound effect on the channel can be released.
    pub has_release: bool,
}

/// An audio command, with the sound itself left to the engine.
#[derive(Debug, Clone, Copy, PartialEq, Eq, Structural)]
pub enum AudioCommand {
    /// Stop the sounds at a destination, only those of a playback mode where one is given.
    Stop(SfxDest, Option<PlaybackKind>),
    /// Play a sound at a destination, in a playback mode.
    Play(AudioKind, SfxDest, PlaybackKind),
    /// Release the loop of a sound effect.
    Release(SfxDest),
}

/// One step of carrying out a command.
#[derive(Debug, Clone, Copy, PartialEq, Eq, Structural)]
pub enum AudioStep {
    /// Stop the channel's sink and take its sink and settings away.
    Halt(usize),
    /// Stop the channel's sink and leave the channel as it is.
    Silence(usize),
    /// Signal the release of the channel's loop.
    Release(usize),
    /// Play the sound on the channel; a stoppable sound effect gets a release signal.
    Play { channel: usize, stoppable: bool },
    /// There is no such channel.
    MissingChannel(usize),
    /// The channel has no loop to release.
    NoLoopToRelease,
    /// No free channel was found (for a mask, the mask).
    ChannelsBusy(Option<u8>),
    /// Stopping "any" channel is not supported.
    CannotStopAny,
    /// Playing on all channels is not supported.
    CannotPlayAll,
}

/// Is a channel free to play on: no sink, or one that is paused or empty?
pub open spec fn is_free(c: ChannelState) -> bool {
    match c.sink {
        None => true,
        Some(s) => s.paused || s.empty,
    }
}

/// Do two playback modes match for a stop? Equal modes match, and so do
/// playing once and looping, which the engine holds to be the same mode.
pub open spec fn modes_match(a: PlaybackKind, b: PlaybackKind) -> bool {
    a == b || (a == PlaybackKind::Once && b == PlaybackKind::Loop) || (a == PlaybackKind::Loop && b
        == PlaybackKind::Once)
}

/// Does a stop with this mode filter reach the channel? A channel without
/// settings is always reached.
pub open spec fn stop_reaches(c: ChannelState, mode: Option<PlaybackKind>) -> bool {
    match (mode, c.mode) {
        (Some(m), Some(cm)) => modes_match(m, cm),
        _ => true,
    }
}

/// Do two playback modes match for a stop?
pub fn mode_eq(a: PlaybackKind, b: PlaybackKind) -> (r: bool)
    ensures
        r == modes_match(a, b),
{
    match (a, b) {
        (PlaybackKind::Once, PlaybackKind::Loop) | (PlaybackKind::Loop, PlaybackKind::Once) => true,
        _ => a == b,
    }
}

/// Is bit `i` of `mask` set?
pub open spec fn mask_bit(mask: u8, i: int) -> bool {
    0 <= i < 8 && (mask >> (i as u8)) & 1u8 == 1u8
}

/// The channels among the first `n` that a stop of all channels halts.
pub open spec fn halted(chs: Seq<ChannelState>, mode: Option<PlaybackKind>, n: int) -> Seq<AudioStep>
    decreases n,
{
    if n <= 0 {
        seq![]
    } else {
        halted(chs, mode, n - 1) + if stop_reaches(chs[n - 1], mode) {
            seq![AudioStep::Halt((n - 1) as usize)]
        } else {
            seq![]
        }
    }
}

/// The steps of stopping the masked channels among bits `0..n`.
pub open spec fn mask_stops(mask: u8, len: int, n: int) -> Seq<AudioStep>
    decreases n,
{
    if n <= 0 {
        seq![]
    } else {
        mask_stops(mask, len, n - 1) + if mask_bit(mask, n - 1) {
            if n - 1 < len {
                seq![AudioStep::Halt((n - 1) as usize)]
            } else {
                seq![AudioStep::MissingChannel((n - 1) as usize)]
            }
        } else {
            seq![]
        }
    }
}

/// Is `i` a channel where a play at this destination may land (ignoring whether it is free)?
pub open spec fn targeted(dest: SfxDest, i: int) -> bool {
    match dest {
        SfxDest::ChannelMask(m) => mask_bit(m, i),
        _ => true,
    }
}

/// Is `i` the first channel that is targeted and free?
pub open spec fn first_free(chs: Seq<ChannelState>, dest: SfxDest, i: int) -> bool {
    &&& 0 <= i < chs.len()
    &&& targeted(dest, i)
    &&& is_free(chs[i])
    &&& forall|j: int| 0 <= j < i ==> !(targeted(dest, j) && is_free(#[trigger] chs[j]))
}

/// Is no channel targeted and free?
pub open spec fn none_free(chs: Seq<ChannelState>, dest: SfxDest) -> bool {
    forall|j: int| 0 <= j < chs.len() ==> !(targeted(dest, j) && is_free(#[trigger] chs[j]))
}

/// The steps of a command on channels `chs`, where a play that looks for a
/// free channel is left out (its choice is stated by [`first_free`]).
pub open spec fn fixed_steps(cmd: AudioCommand, chs: Seq<ChannelState>) -> Seq<AudioStep> {
    match cmd {
        AudioCommand::Stop(SfxDest::All, mode) => halted(chs, mode, chs.len() as int),
        AudioCommand::Stop(SfxDest::Channel(c), _) => if c < chs.len() {
            seq![AudioStep::Silence(c as usize)]
        } else {
            seq![AudioStep::MissingChannel(c as usize)]
        },
        AudioCommand::Stop(SfxDest::ChannelMask(m), _) => mask_stops(m, chs.len() as int, 8),
        AudioCommand::Stop(SfxDest::Any, _) => seq![AudioStep::CannotStopAny],
        AudioCommand::Release(SfxDest::Channel(c)) => if c < chs.len() {
            if chs[c as int].has_release {
                seq![AudioStep::Release(c as usize)]
            } else {
                seq![AudioStep::NoLoopToRelease]
            }
        } else {
            seq![AudioStep::MissingChannel(c as usize)]
        },
        AudioCommand::Release(_) => seq![],
        AudioCommand::Play(_, SfxDest::Channel(c), _) => if c < chs.len() {
            seq![AudioStep::Play { channel: c as usize, stoppable: false }]
        } else {
            seq![AudioStep::MissingChannel(c as usize)]
        },
        AudioCommand::Play(_, SfxDest::All, _) => seq![AudioStep::CannotPlayAll],
        AudioCommand::Play(_, _, _) => seq![],
    }
}

/// Does the command look for a free channel?
pub open spec fn seeks_free(cmd: AudioCommand) -> bool {
    match cmd {
        AudioCommand::Play(_, SfxDest::Any, _) => true,
        AudioCommand::Play(_, SfxDest::ChannelMask(_), _) => true,
        _ => false,
    }
}

/// The mask of a destination, for the busy warning.
pub open spec fn dest_mask(dest: SfxDest) -> Option<u8> {
    match dest {
        SfxDest::ChannelMask(m) => Some(m),
        _ => None,
    }
}

/// Read bit `i` of `mask`.
fn mask_has(mask: u8, i: usize) -> (r: bool)
    requires
        i < 8,
    ensures
        r == mask_bit(mask, i as int),
{
    let s = i as u8;
    (mask >> s) & 1 == 1
}

/// Is the channel free to play on?
fn channel_free(c: &ChannelState) -> (r: bool)
    ensures
        r == is_free(*c),
{
    match c.sink {
        None => true,
        Some(s) => s.paused || s.empty,
    }
}

/// The first channel that `dest` targets and that is free.
fn find_free(chs: &[ChannelState], dest: SfxDest) -> (r: Option<usize>)
    ensures
        match r {
            Some(i) => first_free(chs@, dest, i as int),
            None => none_free(chs@, dest),
        },
{
    let mut i: usize = 0;
    while i < chs.len()
        invariant
            i <= chs@.len(),
            forall|j: int| 0 <= j < i ==> !(targeted(dest, j) && is_free(#[trigger] chs@[j])),
        decreases chs@.len() - i,
    {
        let hit = match dest {
            SfxDest::ChannelMask(m) => i < 8 && mask_has(m, i),
            _ => true,
        };
        if hit && channel_free(&chs[i]) {
            return Some(i);
        }
        i = i + 1;
    }
    None
}

impl AudioCommand {
    /// The steps that carry out this command on the channels `chs`.
    ///
    /// A play on any channel, or on a mask, lands on the first channel that
    /// it targets and that is free, as a stoppable sound where it is a sound
    /// effect, and warns that the channels are busy where there is none; every
    /// other command takes the steps of [`fixed_steps`].
    pub fn plan(&self, chs: &[ChannelState]) -> (r: Vec<AudioStep>)
        ensures
            !seeks_free(*self) ==> r@ == fixed_steps(*self, chs@),
            seeks_free(*self) ==> (match *self {
                AudioCommand::Play(kind, dest, _) => {
                    ||| (exists|i: int| #[trigger] first_free(chs@, dest, i) && r@ == seq![AudioStep::Play { channel: i as usize, stoppable: kind == AudioKind::Sfx }])
                    ||| (none_free(chs@, dest) && r@ == seq![AudioStep::ChannelsBusy(dest_mask(dest))])
                },
                _ => false,
            }),
    {
        let len = chs.len();
        let mut steps: Vec<AudioStep> = Vec::new();
        match *self {
            AudioCommand::Stop(SfxDest::All, mode) => {
                let mut i: usize = 0;
                while i < len
                    invariant
                        len == chs@.len(),
                        i <= len,
                        steps@ == halted(chs@, mode, i as int),
                    decreases len - i,
                {
                    let reach = match (mode, chs[i].mode) {
                        (Some(m), Some(cm)) => mode_eq(m, cm),
                        _ => true,
                    };
                    if reach {
                        steps.push(AudioStep::Halt(i));
                    }
                    assert(steps@ =~= halted(chs@, mode, i + 1));
                    i = i + 1;
                }
            },
            AudioCommand::Stop(SfxDest::Channel(c), _) => {
                if (c as usize) < len {
                    steps.push(AudioStep::Silence(c as usize));
                } else {
                    steps.push(AudioStep::MissingChannel(c as usize));
                }
            },
            AudioCommand::Stop(SfxDest::ChannelMask(m), _) => {
                let mut i: usize = 0;
                while i < 8
                    invariant
                        len == chs@.len(),
                        i <= 8,
                        steps@ == mask_stops(m, len as int, i as int),
                    decreases 8 - i,
                {
                    if mask_has(m, i) {
                        if i < len {
                            steps.push(AudioStep::Halt(i));
                        } else {
                            steps.push(AudioStep::MissingChannel(i));
                        }
                    }
                    assert(steps@ =~= mask_stops(m, len as int, i + 1));
                    i = i + 1;
                }
            },
            AudioCommand::Stop(SfxDest::Any, _) => {
                steps.push(AudioStep::CannotStopAny);
            },
            AudioCommand::Release(SfxDest::Channel(c)) => {
                if (c as usize) < len {
                    if chs[c as usize].has_release {
                        steps.push(AudioStep::Release(c as usize));
                    } else {
                        steps.push(AudioStep::NoLoopToRelease);
                    }
                } else {
                    steps.push(AudioStep::MissingChannel(c as usize));
                }
            },
            AudioCommand::Release(_) => {},
            AudioCommand::Play(_, SfxDest::Channel(c), _) => {
                if (c as usize) < len {
                    steps.push(AudioStep::Play { channel: c as usize, stoppable: false });
                } else {
                    steps.push(AudioStep::MissingChannel(c as usize));
                }
            },
            AudioCommand::Play(_, SfxDest::All, _) => {
                steps.push(AudioStep::CannotPlayAll);
            },
            AudioCommand::Play(kind, dest, _) => {
                match find_free(chs, dest) {
                    Some(i) => {
                        let stoppable = match kind {
                            AudioKind::Sfx => true,
                            AudioKind::Source => false,
                        };
                        steps.push(AudioStep::Play { channel: i, stoppable });
                        assert(first_free(chs@, dest, i as int));
                    },
                    None => {
                        let mask = match dest {
                            SfxDest::ChannelMask(m) => Some(m),
                            _ => None,
                        };
                        steps.push(AudioStep::ChannelsBusy(mask));
                    },
                }
            },
        }
        steps
    }
}

/// A play that looks for a free channel lands on the first targeted channel
/// that has no sink, or whose sink is paused or has finished (is empty); it
/// finds none only where every targeted channel has a sink that is neither
/// paused nor finished.
pub proof fn lemma_free_channel_choice(chs: Seq<ChannelState>, dest: SfxDest, i: int)
    ensures
        first_free(chs, dest, i) <==> {
            &&& 0 <= i < chs.len()
            &&& targeted(dest, i)
            &&& (chs[i].sink matches Some(s) ==> s.paused || s.empty)
            &&& forall|j: int|
                0 <= j < i && targeted(dest, j) ==> (#[trigger] chs[j].sink matches Some(s) && !s.paused
                    && !s.empty)
        },
        none_free(chs, dest) <==> forall|j: int|
            0 <= j < chs.len() && targeted(dest, j) ==> (#[trigger] chs[j].sink matches Some(s) && !s.paused
                && !s.empty),
{
    assert(first_free(chs, dest, i) ==> forall|j: int|
        0 <= j < i && targeted(dest, j) ==> (#[trigger] chs[j].sink matches Some(s) && !s.paused
            && !s.empty)) by {
        if first_free(chs, dest, i) {
            assert forall|j: int| 0 <= j < i && targeted(dest, j) implies (#[trigger] chs[j].sink matches Some(s)
                && !s.paused && !s.empty) by {
                assert(!(targeted(dest, j) && is_free(chs[j])));
            }
        }
    }
    assert(none_free(chs, dest) ==> forall|j: int|
        0 <= j < chs.len() && targeted(dest, j) ==> (#[trigger] chs[j].sink matches Some(s) && !s.paused
            && !s.empty)) by {
        if none_free(chs, dest) {
            assert forall|j: int| 0 <= j < chs.len() && targeted(dest, j) implies (#[trigger] chs[j].sink matches Some(
                s,
            ) && !s.paused && !s.empty) by {
                assert(!(targeted(dest, j) && is_free(chs[j])));
            }
        }
    }
}

/// A channel whose sound has finished (its sink is empty) is free for a play
/// on any channel: where it is the first such channel, or every earlier one
/// is busy, the play lands there.
pub proof fn lemma_finished_channel_is_free(chs: Seq<ChannelState>, i: int)
    requires
        0 <= i < chs.len(),
        chs[i].sink matches Some(s) && s.empty,
        forall|j: int| 0 <= j < i ==> (#[trigger] chs[j].sink matches Some(s) && !s.paused && !s.empty),
    ensures
        first_free(chs, SfxDest::Any, i),
        !none_free(chs, SfxDest::Any),
{
    lemma_free_channel_choice(chs, SfxDest::Any, i);
}

} // verus!
