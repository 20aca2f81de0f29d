use nano9::audio::{Effect, Pico8Note, Sfx, SfxError, SfxPart, WaveForm};

fn volume(note: &Pico8Note) -> f32 {
    note.volume_level() as f32 / 7.0
}

#[test]
fn check_note_conversion() {
    let a = Pico8Note::default();
    let x = u16::from(a);
    let b = Pico8Note::from(x);
    assert_eq!(a, b);
}

#[test]
fn sfx_parse0() {
    let s = "000800000f0000f000000000000000000000000000000000000000000000000000000000000000000000000000000000000000000000000000000000000000000000000000000000000000000000000000000000";
    let sfx = Sfx::try_from(s).unwrap();
    let note = &sfx.notes[0];
    assert_eq!(note.pitch(), 39); // C1
    assert_eq!(note.wave(), WaveForm::Triangle);
    assert_eq!(note.effect(), Effect::NoEffect);
    assert_eq!(volume(note), 0.0);

    let note = Pico8Note(0x000f);
    assert_eq!(note.pitch(), 39); // C1
    assert_eq!(note.wave(), WaveForm::Triangle);
    assert_eq!(note.effect(), Effect::NoEffect);
    assert_eq!(volume(&note), 0.0);
}

#[test]
fn sfx_volume() {
    let s = "001000000c0000c0100c0200c0300c0400c0500c0600c070000000000000000000000000000000000000000000000000000000000000000000000000000000000000000000000000000000000000000000000000";
    let sfx = Sfx::try_from(s).unwrap();
    let note = &sfx.notes[1];
    assert_eq!(note.pitch(), 36); // C1
    assert_eq!(volume(note), 1.0 / 7.0);
    assert_eq!(note.wave(), WaveForm::Triangle);
    assert_eq!(note.effect(), Effect::NoEffect);
    let volumes: Vec<u8> = sfx.notes.iter().take(8).map(|n| (volume(n) * 7.0) as u8).collect();
    assert_eq!(volumes, vec![0, 1, 2, 3, 4, 5, 6, 7]);
    assert_eq!(sfx.notes.len(), 8);
}

#[test]
fn sfx_wave() {
    let s = "001000000c050000000c150000000c250000000c350000000c450000000c550000000c650000000c7500000000000000000000000000000000000000000000000000000000000000000000000000000000000000";
    let sfx = Sfx::try_from(s).unwrap();
    let volumes: Vec<WaveForm> = sfx.notes.iter().map(|n| n.wave()).collect();
    assert_eq!(
        volumes,
        vec![
            WaveForm::Triangle,
            WaveForm::Triangle,
            WaveForm::Sawtooth,
            WaveForm::Triangle,
            WaveForm::LongSquare,
            WaveForm::Triangle,
            WaveForm::ShortSquare,
            WaveForm::Triangle,
            WaveForm::Ringing,
            WaveForm::Triangle,
            WaveForm::Noise,
            WaveForm::Triangle,
            WaveForm::RingingSine,
            WaveForm::Triangle,
            WaveForm::Custom(0),
        ]
    );
    assert_eq!(sfx.notes.len(), 15);
}

#[test]
fn sfx_pitch() {
    let s = "001000000c050000000c150000000c250000000c350000000c450000000c550000000c650000000c7500000000000000000000000000000000000000000000000000000000000000000000000000000000000000";
    let sfx = Sfx::try_from(s).unwrap();
    let volumes: Vec<u8> = sfx.notes.iter().take(15).map(|n| n.pitch()).collect();
    assert_eq!(volumes, vec![36, 24, 36, 24, 36, 24, 36, 24, 36, 24, 36, 24, 36, 24, 36]);
    assert_eq!(sfx.notes.len(), 15);
}

#[test]
fn note_wave() {
    let note = Pico8Note::new(37, WaveForm::Noise, 7, Effect::NoEffect);
    assert_eq!(note.wave(), WaveForm::Noise);
}

#[test]
fn note_fields_round_trip() {
    let note = Pico8Note::new(50, WaveForm::Ringing, 3, Effect::Vibrato);
    assert_eq!(note.pitch(), 50);
    assert_eq!(note.wave(), WaveForm::Ringing);
    assert_eq!(note.volume_level(), 3);
    assert_eq!(note.effect(), Effect::Vibrato);
    // pitch 26 = bits 0-5, wave 4 at bit 6, volume 3 at bit 9, effect 2 at bit 12.
    assert_eq!(u16::from(note), 26 | (4 << 6) | (3 << 9) | (2 << 12));
}

#[test]
fn wave_form_numbers() {
    assert_eq!(WaveForm::try_from(0).unwrap(), WaveForm::Triangle);
    assert_eq!(WaveForm::try_from(6).unwrap(), WaveForm::RingingSine);
    assert_eq!(WaveForm::try_from(7).unwrap(), WaveForm::Custom(0));
    assert_eq!(WaveForm::try_from(15).unwrap(), WaveForm::Custom(8));
    assert!(matches!(WaveForm::try_from(16), Err(SfxError::InvalidWaveForm(16))));
    assert_eq!(WaveForm::Custom(3).to_u8(), 10);
    assert_eq!(WaveForm::Noise.to_u8(), 5);
}

#[test]
fn effect_numbers() {
    assert_eq!(Effect::try_from(0).unwrap(), Effect::NoEffect);
    assert_eq!(Effect::try_from(7).unwrap(), Effect::ArpSlow);
    assert!(matches!(Effect::try_from(8), Err(SfxError::InvalidEffect(8))));
    assert_eq!(u8::from(Effect::FadeOut), 5);
}

#[test]
fn sfx_errors() {
    // A note duration that is not hex.
    match Sfx::try_from("00g000000c000") {
        Err(SfxError::InvalidHex(s)) => assert_eq!(s, "g0"),
        _ => panic!("expected an invalid hex error"),
    }
    // The editor mode is read but never checked.
    assert!(Sfx::try_from("0g1000000c000").is_ok());
    // An effect of 8 is invalid.
    assert!(matches!(Sfx::try_from("001000000c0080"), Err(SfxError::InvalidEffect(8))));
    // Notes cut short.
    assert!(matches!(Sfx::try_from("001000000c"), Err(SfxError::Missing(SfxPart::WaveForm))));
    assert!(matches!(Sfx::try_from("001000000c0"), Err(SfxError::Missing(SfxPart::Volume))));
    assert_eq!(SfxPart::PitchLow.name(), "pitch low nybble");
}

#[test]
fn sfx_loop_and_speed() {
    let sfx = Sfx::try_from("00200a1f0c05000000").unwrap();
    assert_eq!(sfx.speed, 0x20);
    assert_eq!(sfx.loop_start, Some(0x0a));
    assert_eq!(sfx.loop_end, Some(0x1f));
    assert_eq!(sfx.notes.len(), 1);
    assert_eq!(sfx.notes[0].volume_level(), 5);
    let plain = Sfx::try_from("001000000c050").unwrap();
    assert_eq!(plain.loop_start, None);
    assert_eq!(plain.loop_end, None);
    // Outside the format: the line ends in the middle of its header.
    assert!(Sfx::parse_checked(b"00100000").is_none());
}

#[test]
fn sfx_from_memory() {
    let mut bytes = vec![0u8; 68];
    bytes[0] = 0x0f;
    bytes[1] = 0x0a;
    bytes[65] = 7;
    bytes[66] = 2;
    let sfx = Sfx::from_u8(&bytes);
    assert_eq!(sfx.notes.len(), 32);
    assert_eq!(u16::from(sfx.notes[0]), 0x0a0f);
    assert_eq!(sfx.speed, 7);
    assert_eq!(sfx.loop_start, Some(2));
    assert_eq!(sfx.loop_end, None);
}
