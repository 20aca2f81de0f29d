use nano9::api::{fget_answer, fset_args, FgetAnswer};
use nano9::api::{
    fget, fset, music_request, peek, poke, rnd_index, rnd_int, sfx_request, stat_query, Error, SfxCommand, Spr,
    StatQuery,
};
use nano9::command::{AudioCommand, AudioKind, PlaybackKind, SfxDest};

#[test]
fn sprite_flags() {
    let mut flags = vec![0u8; 4];
    fset(&mut flags, 1, Some(3), 1);
    assert_eq!(flags[1], 8);
    assert_eq!(fget(&flags, Some(1), Some(3)), 1);
    assert_eq!(fget(&flags, Some(1), Some(2)), 0);
    assert_eq!(fget(&flags, Some(1), None), 8);
    fset(&mut flags, 1, Some(3), 0);
    assert_eq!(flags[1], 0);
    fset(&mut flags, 2, None, 0xff);
    assert_eq!(fget(&flags, Some(2), Some(7)), 1);
    assert_eq!(fget(&flags, None, None), 0);
    assert_eq!(fget(&flags, Some(10), None), 0);
}

#[test]
fn memory_and_status() {
    let mut keyboard = false;
    assert!(poke(0x5f2d, 1, &mut keyboard).is_ok());
    assert!(keyboard);
    assert!(poke(0x5f2d, 0, &mut keyboard).is_ok());
    assert!(!keyboard);
    assert!(matches!(poke(0x6000, 1, &mut keyboard), Err(Error::UnsupportedPoke(0x6000))));
    assert!(matches!(peek(0x5f2d), Err(Error::UnsupportedPeek(0x5f2d))));
    assert_eq!(stat_query(31).unwrap(), StatQuery::NextKey);
    assert_eq!(stat_query(8).unwrap(), StatQuery::TargetFrameRate);
    assert!(matches!(stat_query(7), Err(Error::UnsupportedStat(7))));
}

#[test]
fn sprite_selection() {
    assert_eq!(Spr::from_i64(5), Spr::Cur { sprite: 5 });
    assert_eq!(Spr::from_i64(-1), Spr::SetSheet { sheet: 0 });
    assert_eq!(Spr::from_i64(-3), Spr::SetSheet { sheet: 2 });
    assert_eq!(Spr::from_pair(4, 1), Spr::From { sprite: 4, sheet: 1 });
    assert_eq!(Spr::from_usize(2), Spr::Cur { sprite: 2 });
    assert_eq!(Spr::from_i32(6), Spr::Cur { sprite: 6 });
}

#[test]
fn sfx_commands() {
    assert_eq!(SfxCommand::from_script(-2).unwrap(), SfxCommand::Release);
    assert_eq!(SfxCommand::from_script(-1).unwrap(), SfxCommand::Stop);
    assert_eq!(SfxCommand::from_script(3).unwrap(), SfxCommand::Play(3));
    assert!(matches!(SfxCommand::from_script(-3), Err(Error::InvalidArgument(_))));
    assert_eq!(SfxCommand::from(9), SfxCommand::Play(9));
}

#[test]
fn sound_requests() {
    let banks = vec![vec![AudioKind::Sfx, AudioKind::Source]];
    let q = sfx_request(SfxCommand::Play(1), Some(2), None, None, None, &banks).unwrap();
    assert_eq!(q.command, AudioCommand::Play(AudioKind::Source, SfxDest::Channel(2), PlaybackKind::Remove));
    assert_eq!(q.sound, Some((0, 1)));
    let q = sfx_request(SfxCommand::Stop, None, None, None, None, &banks).unwrap();
    assert_eq!(q.command, AudioCommand::Stop(SfxDest::All, Some(PlaybackKind::Remove)));
    match sfx_request(SfxCommand::Play(5), None, None, None, None, &banks) {
        Err(Error::NoAsset(s)) => assert_eq!(s, "sfx 5"),
        _ => panic!("expected a missing sfx"),
    }
    match sfx_request(SfxCommand::Play(0), None, None, None, Some(12), &banks) {
        Err(Error::NoAsset(s)) => assert_eq!(s, "bank 12"),
        _ => panic!("expected a missing bank"),
    }
    let q = music_request(SfxCommand::Play(0), Some(3), None, &banks).unwrap();
    assert_eq!(q.command, AudioCommand::Play(AudioKind::Sfx, SfxDest::ChannelMask(3), PlaybackKind::Loop));
    match music_request(SfxCommand::Play(0), None, Some(1), &banks) {
        Err(Error::NoSuch(s)) => assert_eq!(s, "audio bank 1"),
        _ => panic!("expected a missing bank"),
    }
    let q = music_request(SfxCommand::Stop, None, None, &banks).unwrap();
    assert_eq!(q.command, AudioCommand::Stop(SfxDest::All, Some(PlaybackKind::Loop)));
}

#[test]
fn random_choices() {
    assert_eq!(rnd_int(17, 4), 2);
    assert_eq!(rnd_int(u64::MAX, 10), -1);
    assert_eq!(rnd_index(10, 3), 1);
}

#[test]
fn script_flag_arguments() {
    assert_eq!(fset_args(3, Some(1)), (Some(3), 1));
    assert_eq!(fset_args(0x81, None), (None, 0x81));
    assert_eq!(fget_answer(1, Some(2)), FgetAnswer::Bool(true));
    assert_eq!(fget_answer(0, Some(2)), FgetAnswer::Bool(false));
    assert_eq!(fget_answer(0x81, None), FgetAnswer::Integer(0x81));
}
