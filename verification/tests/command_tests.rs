use nano9::command::{mode_eq, AudioCommand, AudioKind, AudioStep, ChannelState, PlaybackKind, SfxDest, SinkState};

fn idle() -> ChannelState {
    ChannelState { sink: None, mode: None, has_release: false }
}

fn busy(mode: PlaybackKind) -> ChannelState {
    ChannelState { sink: Some(SinkState { paused: false, empty: false }), mode: Some(mode), has_release: false }
}

#[test]
fn play_any_takes_first_free_channel() {
    let chs = [busy(PlaybackKind::Loop), idle(), idle()];
    let plan = AudioCommand::Play(AudioKind::Sfx, SfxDest::Any, PlaybackKind::Remove).plan(&chs);
    assert_eq!(plan, vec![AudioStep::Play { channel: 1, stoppable: true }]);
    let all_busy = [busy(PlaybackKind::Loop), busy(PlaybackKind::Once)];
    let plan = AudioCommand::Play(AudioKind::Source, SfxDest::Any, PlaybackKind::Remove).plan(&all_busy);
    assert_eq!(plan, vec![AudioStep::ChannelsBusy(None)]);
}

#[test]
fn play_on_mask_only_uses_masked_channels() {
    let chs = [idle(), busy(PlaybackKind::Loop), idle(), idle()];
    let plan = AudioCommand::Play(AudioKind::Sfx, SfxDest::ChannelMask(0b1010), PlaybackKind::Loop).plan(&chs);
    assert_eq!(plan, vec![AudioStep::Play { channel: 3, stoppable: true }]);
    let plan = AudioCommand::Play(AudioKind::Sfx, SfxDest::ChannelMask(0b0010), PlaybackKind::Loop).plan(&chs);
    assert_eq!(plan, vec![AudioStep::ChannelsBusy(Some(0b0010))]);
}

#[test]
fn play_on_channel_and_all() {
    let chs = [busy(PlaybackKind::Loop)];
    let plan = AudioCommand::Play(AudioKind::Sfx, SfxDest::Channel(0), PlaybackKind::Remove).plan(&chs);
    assert_eq!(plan, vec![AudioStep::Play { channel: 0, stoppable: false }]);
    let plan = AudioCommand::Play(AudioKind::Sfx, SfxDest::Channel(4), PlaybackKind::Remove).plan(&chs);
    assert_eq!(plan, vec![AudioStep::MissingChannel(4)]);
    let plan = AudioCommand::Play(AudioKind::Sfx, SfxDest::All, PlaybackKind::Remove).plan(&chs);
    assert_eq!(plan, vec![AudioStep::CannotPlayAll]);
}

#[test]
fn stops() {
    let chs = [busy(PlaybackKind::Loop), busy(PlaybackKind::Remove), idle()];
    let plan = AudioCommand::Stop(SfxDest::All, Some(PlaybackKind::Once)).plan(&chs);
    assert_eq!(plan, vec![AudioStep::Halt(0), AudioStep::Halt(2)]);
    let plan = AudioCommand::Stop(SfxDest::All, Some(PlaybackKind::Remove)).plan(&chs);
    assert_eq!(plan, vec![AudioStep::Halt(1), AudioStep::Halt(2)]);
    let despawning = [busy(PlaybackKind::Loop), busy(PlaybackKind::Despawn), idle()];
    let plan = AudioCommand::Stop(SfxDest::All, Some(PlaybackKind::Loop)).plan(&despawning);
    assert_eq!(plan, vec![AudioStep::Halt(0), AudioStep::Halt(2)]);
    let plan = AudioCommand::Stop(SfxDest::All, Some(PlaybackKind::Despawn)).plan(&despawning);
    assert_eq!(plan, vec![AudioStep::Halt(1), AudioStep::Halt(2)]);
    let plan = AudioCommand::Stop(SfxDest::All, None).plan(&chs);
    assert_eq!(plan, vec![AudioStep::Halt(0), AudioStep::Halt(1), AudioStep::Halt(2)]);
    let plan = AudioCommand::Stop(SfxDest::Channel(1), None).plan(&chs);
    assert_eq!(plan, vec![AudioStep::Silence(1)]);
    let plan = AudioCommand::Stop(SfxDest::ChannelMask(0b1001), None).plan(&chs);
    assert_eq!(plan, vec![AudioStep::Halt(0), AudioStep::MissingChannel(3)]);
    let plan = AudioCommand::Stop(SfxDest::Any, None).plan(&chs);
    assert_eq!(plan, vec![AudioStep::CannotStopAny]);
}

#[test]
fn releases() {
    let mut looping = busy(PlaybackKind::Loop);
    looping.has_release = true;
    let chs = [looping, idle()];
    assert_eq!(AudioCommand::Release(SfxDest::Channel(0)).plan(&chs), vec![AudioStep::Release(0)]);
    assert_eq!(AudioCommand::Release(SfxDest::Channel(1)).plan(&chs), vec![AudioStep::NoLoopToRelease]);
    assert_eq!(AudioCommand::Release(SfxDest::Channel(2)).plan(&chs), vec![AudioStep::MissingChannel(2)]);
    assert!(AudioCommand::Release(SfxDest::Any).plan(&chs).is_empty());
}

#[test]
fn test_matches_eq() {
    let x = PlaybackKind::Once;
    let y = PlaybackKind::Loop;
    // The y in the match expression below is not the y above this line.
    assert!(matches!(x, _y));
    assert!(mode_eq(x, y));
}
