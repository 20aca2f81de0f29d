//! Pico-8 sound effects: notes, wave forms, effects and the `__sfx__` line format.

use vstd::prelude::*;
use vstd::std_specs::convert::FromSpecImpl;
use vstd::string::StringSliceAdditionalSpecFns;
use crate::hex::{hex_value, to_byte, to_nybble};
use crate::text::{char_of_byte, string_from_utf8};

verus! {

/// The MIDI pitch of the Pico-8 pitch zero.
pub const PITCH_OFFSET: u8 = 24;

/// The wave form of a note.
#[derive(Debug, Clone, Copy, PartialEq, Eq, Structural)]
pub enum WaveForm {
    Triangle,
    Sawtooth,
    LongSquare,
    ShortSquare,
    Ringing,
    Noise,
    RingingSine,
    Custom(u8),
}

/// The effect applied to a note.
#[derive(Debug, Clone, Copy, PartialEq, Eq, Structural)]
pub enum Effect {
    NoEffect,
    Slide,
    Vibrato,
    Drop,
    FadeIn,
    FadeOut,
    ArpFast,
    ArpSlow,
}

/// Which part of an sfx line was missing.
#[derive(Debug, Clone, Copy, PartialEq, Eq, Structural)]
pub enum SfxPart {
    EditorMode,
    NoteDuration,
    LoopStart,
    LoopEnd,
    PitchLow,
    WaveForm,
    Volume,
    Effect,
}

/// Errors in sfx data.
#[derive(Debug)]
pub enum SfxError {
    InvalidEffect(u8),
    InvalidWaveForm(u8),
    InvalidHex(String),
    Missing(SfxPart),
}

/// What an [`SfxError`] says, with its text as characters.
pub enum SfxFault {
    InvalidEffect(u8),
    InvalidWaveForm(u8),
    InvalidHex(Seq<char>),
    Missing(SfxPart),
}

impl View for SfxError {
    type V = SfxFault;

    open spec fn view(&self) -> SfxFault {
        match self {
            SfxError::InvalidEffect(x) => SfxFault::InvalidEffect(*x),
            SfxError::InvalidWaveForm(x) => SfxFault::InvalidWaveForm(*x),
            SfxError::InvalidHex(s) => SfxFault::InvalidHex(s@),
            SfxError::Missing(p) => SfxFault::Missing(*p),
        }
    }
}

impl SfxPart {
    /// The name of the part, as it appears in messages.
    pub fn name(&self) -> (r: &'static str)
        ensures
            match self {
                SfxPart::EditorMode => r@ == "editor_mode"@,
                SfxPart::NoteDuration => r@ == "note_duration"@,
                SfxPart::LoopStart => r@ == "loop_start"@,
                SfxPart::LoopEnd => r@ == "loop_end"@,
                SfxPart::PitchLow => r@ == "pitch low nybble"@,
                SfxPart::WaveForm => r@ == "wave form"@,
                SfxPart::Volume => r@ == "volume"@,
                SfxPart::Effect => r@ == "effect"@,
            },
    {
        match self {
            SfxPart::EditorMode => "editor_mode",
            SfxPart::NoteDuration => "note_duration",
            SfxPart::LoopStart => "loop_start",
            SfxPart::LoopEnd => "loop_end",
            SfxPart::PitchLow => "pitch low nybble",
            SfxPart::WaveForm => "wave form",
            SfxPart::Volume => "volume",
            SfxPart::Effect => "effect",
        }
    }
}

/// The wave form that a number between 0 and 15 stands for.
pub open spec fn spec_wave_form(value: u8) -> WaveForm {
    match value {
        0 => WaveForm::Triangle,
        1 => WaveForm::Sawtooth,
        2 => WaveForm::LongSquare,
        3 => WaveForm::ShortSquare,
        4 => WaveForm::Ringing,
        5 => WaveForm::Noise,
        6 => WaveForm::RingingSine,
        x => WaveForm::Custom((x - 7) as u8),
    }
}

/// The number of a wave form.
pub open spec fn spec_wave_index(wave: WaveForm) -> int {
    match wave {
        WaveForm::Triangle => 0,
        WaveForm::Sawtooth => 1,
        WaveForm::LongSquare => 2,
        WaveForm::ShortSquare => 3,
        WaveForm::Ringing => 4,
        WaveForm::Noise => 5,
        WaveForm::RingingSine => 6,
        WaveForm::Custom(x) => x + 7,
    }
}

/// The effect that a number between 0 and 7 stands for.
pub open spec fn spec_effect(value: u8) -> Effect {
    match value {
        0 => Effect::NoEffect,
        1 => Effect::Slide,
        2 => Effect::Vibrato,
        3 => Effect::Drop,
        4 => Effect::FadeIn,
        5 => Effect::FadeOut,
        6 => Effect::ArpFast,
        _ => Effect::ArpSlow,
    }
}

/// The number of an effect.
pub open spec fn spec_effect_index(effect: Effect) -> u8 {
    match effect {
        Effect::NoEffect => 0,
        Effect::Slide => 1,
        Effect::Vibrato => 2,
        Effect::Drop => 3,
        Effect::FadeIn => 4,
        Effect::FadeOut => 5,
        Effect::ArpFast => 6,
        Effect::ArpSlow => 7,
    }
}

impl WaveForm {
    /// The wave form with the given number.
    pub fn try_from(value: u8) -> (r: Result<WaveForm, SfxError>)
        ensures
            value <= 15 ==> (r matches Ok(w) && w == spec_wave_form(value)),
            value > 15 ==> (r matches Err(e) && e@ == SfxFault::InvalidWaveForm(value)),
    {
        match value {
            0 => Ok(WaveForm::Triangle),
            1 => Ok(WaveForm::Sawtooth),
            2 => Ok(WaveForm::LongSquare),
            3 => Ok(WaveForm::ShortSquare),
            4 => Ok(WaveForm::Ringing),
            5 => Ok(WaveForm::Noise),
            6 => Ok(WaveForm::RingingSine),
            x => {
                if x <= 15 {
                    Ok(WaveForm::Custom(x - 7))
                } else {
                    Err(SfxError::InvalidWaveForm(x))
                }
            },
        }
    }

    /// The number of this wave form.
    pub fn to_u8(self) -> (r: u8)
        requires
            spec_wave_index(self) <= u8::MAX,
        ensures
            r == spec_wave_index(self),
    {
        match self {
            WaveForm::Triangle => 0,
            WaveForm::Sawtooth => 1,
            WaveForm::LongSquare => 2,
            WaveForm::ShortSquare => 3,
            WaveForm::Ringing => 4,
            WaveForm::Noise => 5,
            WaveForm::RingingSine => 6,
            WaveForm::Custom(x) => x + 7,
        }
    }
}

impl Effect {
    /// The effect with the given number.
    pub fn try_from(value: u8) -> (r: Result<Effect, SfxError>)
        ensures
            value <= 7 ==> (r matches Ok(e) && e == spec_effect(value)),
            value > 7 ==> (r matches Err(e) && e@ == SfxFault::InvalidEffect(value)),
    {
        match value {
            0 => Ok(Effect::NoEffect),
            1 => Ok(Effect::Slide),
            2 => Ok(Effect::Vibrato),
            3 => Ok(Effect::Drop),
            4 => Ok(Effect::FadeIn),
            5 => Ok(Effect::FadeOut),
            6 => Ok(Effect::ArpFast),
            7 => Ok(Effect::ArpSlow),
            x => Err(SfxError::InvalidEffect(x)),
        }
    }
}

impl From<Effect> for u8 {
    fn from(value: Effect) -> (r: u8) {
        match value {
            Effect::NoEffect => 0,
            Effect::Slide => 1,
            Effect::Vibrato => 2,
            Effect::Drop => 3,
            Effect::FadeIn => 4,
            Effect::FadeOut => 5,
            Effect::ArpFast => 6,
            Effect::ArpSlow => 7,
        }
    }
}

impl FromSpecImpl<Effect> for u8 {
    open spec fn obeys_from_spec() -> bool {
        true
    }

    open spec fn from_spec(v: Effect) -> u8 {
        spec_effect_index(v)
    }
}

/// A note packed in sixteen bits: pitch in bits 0-5, wave form from bit 6,
/// volume in bits 9-11 and effect in bits 12-14.
#[derive(Debug, Clone, Copy, PartialEq, Eq, Structural)]
pub struct Pico8Note(pub u16);

/// The bits of a note with the given fields.
pub open spec fn note_bits(pitch: u8, wave: u8, volume: u8, effect: u8) -> u16 {
    ((pitch & 63u8) as u16) | ((wave as u16) << 6u16) | (((volume & 7u8) as u16) << 9u16) | (((
    effect as u16) & 7u16) << 12u16)
}

impl Pico8Note {
    /// A note with the given MIDI pitch, wave form, volume and effect.
    pub fn new(pitch: u8, wave: WaveForm, volume: u8, effect: Effect) -> (r: Pico8Note)
        requires
            PITCH_OFFSET <= pitch,
            pitch - PITCH_OFFSET <= 63,
            volume <= 7,
            spec_wave_index(wave) <= u8::MAX,
        ensures
            r.0 == note_bits(
                (pitch - PITCH_OFFSET) as u8,
                spec_wave_index(wave) as u8,
                volume,
                spec_effect_index(effect),
            ),
    {
        let pitch = pitch - PITCH_OFFSET;
        let w = wave.to_u8();
        let e = u8::from(effect);
        Pico8Note(
            ((pitch & 0b0011_1111) as u16) | ((w as u16) << 6) | (((volume & 0b111) as u16) << 9)
                | (((e as u16) & 0b111) << 12),
        )
    }

    /// The MIDI pitch of this note.
    pub fn pitch(&self) -> (r: u8)
        ensures
            r == (self.0 & 63u16) + PITCH_OFFSET,
    {
        let x = self.0;
        assert(x & 63u16 <= 63) by (bit_vector);
        (self.0 & 0b0011_1111) as u8 + PITCH_OFFSET
    }

    /// The wave form of this note.
    pub fn wave(&self) -> (r: WaveForm)
        ensures
            r == spec_wave_form(((self.0 >> 6u16) & 7u16) as u8),
    {
        let x = self.0;
        assert((x >> 6u16) & 7u16 <= 7) by (bit_vector);
        match WaveForm::try_from(((self.0 >> 6) & 0b111) as u8) {
            Ok(w) => w,
            Err(_) => WaveForm::Triangle,
        }
    }

    /// The volume of this note, between 0 and 7.
    pub fn volume_level(&self) -> (r: u8)
        ensures
            r == (self.0 >> 9u16) & 7u16,
            r <= 7,
    {
        let x = self.0;
        assert((x >> 9u16) & 7u16 <= 7) by (bit_vector);
        ((self.0 >> 9) & 0b111) as u8
    }

    /// The effect of this note.
    pub fn effect(&self) -> (r: Effect)
        ensures
            r == spec_effect(((self.0 >> 12u16) & 7u16) as u8),
    {
        let x = self.0;
        assert((x >> 12u16) & 7u16 <= 7) by (bit_vector);
        match Effect::try_from(((self.0 >> 12) & 0b111) as u8) {
            Ok(e) => e,
            Err(_) => Effect::NoEffect,
        }
    }

    /// The default note: pitch 32, a triangle wave at volume 5, no effect.
    pub fn default() -> (r: Pico8Note)
        ensures
            r.0 == note_bits(8, 0, 5, 0),
    {
        Pico8Note::new(32, WaveForm::Triangle, 5, Effect::NoEffect)
    }

    /// The note with the given bits.
    pub fn from(value: u16) -> (r: Pico8Note)
        ensures
            r.0 == value,
    {
        Pico8Note(value)
    }
}

impl From<Pico8Note> for u16 {
    fn from(value: Pico8Note) -> (r: u16) {
        value.0
    }
}

impl FromSpecImpl<Pico8Note> for u16 {
    open spec fn obeys_from_spec() -> bool {
        true
    }

    open spec fn from_spec(v: Pico8Note) -> u16 {
        v.0
    }
}

/// A sound effect: a row of notes played at a speed, with an optional loop.
#[derive(Debug, Clone)]
pub struct Sfx {
    pub notes: Vec<Pico8Note>,
    pub speed: u8,
    pub loop_start: Option<u8>,
    pub loop_end: Option<u8>,
}

impl Sfx {
    /// A sound effect of the given notes at speed 16 and without a loop.
    pub fn new(notes: Vec<Pico8Note>) -> (r: Sfx)
        ensures
            r.notes@ == notes@,
            r.speed == 16,
            r.loop_start is None,
            r.loop_end is None,
    {
        Sfx { notes, speed: 16, loop_start: None, loop_end: None }
    }

    /// This sound effect at the given speed.
    pub fn with_speed(self, speed: u8) -> (r: Sfx)
        ensures
            r.notes@ == self.notes@,
            r.speed == speed,
            r.loop_start == self.loop_start,
            r.loop_end == self.loop_end,
    {
        let mut s = self;
        s.speed = speed;
        s
    }

    /// This sound effect with the given loop.
    pub fn with_loop(self, loop_start: Option<u8>, loop_end: Option<u8>) -> (r: Sfx)
        ensures
            r.notes@ == self.notes@,
            r.speed == self.speed,
            r.loop_start == loop_start,
            r.loop_end == loop_end,
    {
        let mut s = self;
        s.loop_start = loop_start;
        s.loop_end = loop_end;
        s
    }
}

/// A parsed sound effect as a value.
pub struct SfxModel {
    pub notes: Seq<Pico8Note>,
    pub speed: u8,
    pub loop_start: Option<u8>,
    pub loop_end: Option<u8>,
}

/// How `Sfx::try_from` ends on a line: `None` where the line is outside what it
/// accepts, else the sound effect or the error.
pub type SfxOutcome = Option<Result<SfxModel, SfxFault>>;

/// The number of `'0'` bytes at the end of `s`.
pub open spec fn trailing_zeros(s: Seq<u8>) -> nat
    decreases s.len(),
{
    if s.len() == 0 {
        0
    } else if s.last() == 48 {
        1 + trailing_zeros(s.drop_last())
    } else {
        0
    }
}

/// The number of notes at the end of a line that are left out: whole groups of
/// five trailing zeros, or none when the line is all zeros.
pub open spec fn empty_notes(line: Seq<u8>) -> nat {
    if trailing_zeros(line) == line.len() {
        0
    } else {
        trailing_zeros(line) / 5
    }
}

/// The characters of a two byte hex pair that failed to parse, if it is UTF-8.
pub open spec fn pair_fault(line: Seq<u8>, at: int) -> Option<SfxFault> {
    let pair = line.subrange(at, at + 2);
    if vstd::utf8::valid_utf8(pair) {
        Some(SfxFault::InvalidHex(vstd::utf8::decode_utf8(pair)))
    } else {
        None
    }
}

/// The byte of the hex pair at `at`, or its fault (`None` where the line is
/// outside what the parser accepts).
pub open spec fn header_byte(line: Seq<u8>, at: int) -> Option<Result<u8, SfxFault>> {
    match (hex_value(line[at]), hex_value(line[at + 1])) {
        (Some(h), Some(l)) => Some(Ok(crate::hex::nybbles_to_byte(h, l))),
        _ => match pair_fault(line, at) {
            Some(f) => Some(Err(f)),
            None => None,
        },
    }
}

/// The fault for the byte at `at` that is no hex digit.
pub open spec fn hex_fault(line: Seq<u8>, at: int) -> SfxFault {
    SfxFault::InvalidHex(seq![line[at] as char])
}

/// The nybble of a note's field at `at`, or what the parser reports on it.
pub open spec fn note_field(lb: Seq<u8>, at: int, part: SfxPart) -> Result<u8, SfxFault> {
    if at >= lb.len() {
        Err(SfxFault::Missing(part))
    } else {
        match hex_value(lb[at]) {
            Some(v) => Ok(v),
            None => Err(hex_fault(lb, at)),
        }
    }
}

/// The note whose five nybbles start at `pos` of `lb`.
pub open spec fn parse_note(lb: Seq<u8>, pos: int) -> Option<Result<Pico8Note, SfxFault>> {
    match note_field(lb, pos + 1, SfxPart::PitchLow) {
        Err(f) => Some(Err(f)),
        Ok(pl) => match note_field(lb, pos + 2, SfxPart::WaveForm) {
            Err(f) => Some(Err(f)),
            Ok(w) => match note_field(lb, pos + 3, SfxPart::Volume) {
                Err(f) => Some(Err(f)),
                Ok(v) => match note_field(lb, pos + 4, SfxPart::Effect) {
                    Err(f) => Some(Err(f)),
                    Ok(e) => match hex_value(lb[pos]) {
                        None => Some(Err(hex_fault(lb, pos))),
                        Some(ph) => {
                            let p = ph * 16 + pl;
                            if p > 231 {
                                None
                            } else if e > 7 {
                                Some(Err(SfxFault::InvalidEffect(e)))
                            } else if v > 7 || p > 63 {
                                None
                            } else {
                                Some(Ok(Pico8Note(note_bits(p as u8, w, v, e))))
                            }
                        },
                    },
                },
            },
        },
    }
}

/// Put `prefix` before the notes of an outcome.
pub open spec fn prepend_notes(
    prefix: Seq<Pico8Note>,
    r: Option<Result<Seq<Pico8Note>, SfxFault>>,
) -> Option<Result<Seq<Pico8Note>, SfxFault>> {
    match r {
        None => None,
        Some(Err(f)) => Some(Err(f)),
        Some(Ok(rest)) => Some(Ok(prefix + rest)),
    }
}

/// The notes of `lb` from the note starting at `pos` on.
pub open spec fn parse_notes(lb: Seq<u8>, pos: int) -> Option<Result<Seq<Pico8Note>, SfxFault>>
    decreases lb.len() - pos,
{
    if pos >= lb.len() || pos < 0 {
        Some(Ok(seq![]))
    } else {
        match parse_note(lb, pos) {
            None => None,
            Some(Err(f)) => Some(Err(f)),
            Some(Ok(n)) => prepend_notes(seq![n], parse_notes(lb, pos + 5)),
        }
    }
}

/// A loop bound, where zero means none.
pub open spec fn loop_bound(x: u8) -> Option<u8> {
    if x != 0 {
        Some(x)
    } else {
        None
    }
}

/// How `Sfx::try_from` ends on a line of an `__sfx__` section: eight hex
/// digits of header (editor mode, note duration, loop start, loop end), then
/// notes of five hex digits each (pitch high and low, wave form, volume,
/// effect), with whole trailing notes of zeros left out.
pub open spec fn spec_parse_sfx(line: Seq<u8>) -> SfxOutcome {
    let len = line.len();
    if len < 8 {
        None
    } else if empty_notes(line) > (len - 8) / 5 {
        None
    } else {
        let lb = line.subrange(0, len - empty_notes(line) * 5);
        match header_byte(lb, 0) {
            None => None,
            Some(_) => match header_byte(lb, 2) {
                None => None,
                Some(duration) => match header_byte(lb, 4) {
                    None => None,
                    Some(Err(f)) => Some(Err(f)),
                    Some(Ok(loop_start)) => match header_byte(lb, 6) {
                        None => None,
                        Some(Err(f)) => Some(Err(f)),
                        Some(Ok(loop_end)) => match parse_notes(lb, 8) {
                            None => None,
                            Some(Err(f)) => Some(Err(f)),
                            Some(Ok(notes)) => match duration {
                                Err(f) => Some(Err(f)),
                                Ok(speed) => Some(
                                    Ok(
                                        SfxModel {
                                            notes,
                                            speed,
                                            loop_start: loop_bound(loop_start),
                                            loop_end: loop_bound(loop_end),
                                        },
                                    ),
                                ),
                            },
                        },
                    },
                },
            },
        }
    }
}

/// Does `sfx` hold what `m` describes?
pub open spec fn sfx_matches(sfx: Sfx, m: SfxModel) -> bool {
    &&& sfx.notes@ == m.notes
    &&& sfx.speed == m.speed
    &&& sfx.loop_start == m.loop_start
    &&& sfx.loop_end == m.loop_end
}

/// Does a result of `Sfx::try_from` agree with the outcome `o`?
pub open spec fn sfx_result_matches(r: Result<Sfx, SfxError>, o: SfxOutcome) -> bool {
    match o {
        None => false,
        Some(Ok(m)) => r matches Ok(s) && sfx_matches(s, m),
        Some(Err(f)) => r matches Err(e) && e@ == f,
    }
}

/// Count the `'0'` bytes at the end of `bytes`.
fn count_trailing_zeros(bytes: &[u8]) -> (r: usize)
    ensures
        r == trailing_zeros(bytes@),
{
    let mut n: usize = bytes.len();
    let ghost s = bytes@;
    assert(s.subrange(0, n as int) =~= s);
    while n > 0 && bytes[n - 1] == 48
        invariant
            n <= bytes.len(),
            s == bytes@,
            trailing_zeros(s) == (bytes.len() - n) + trailing_zeros(s.subrange(0, n as int)),
        decreases n,
    {
        assert(s.subrange(0, n as int).drop_last() =~= s.subrange(0, n - 1));
        n = n - 1;
    }
    if n > 0 {
        assert(s.subrange(0, n as int).last() == bytes[n - 1]);
    }
    bytes.len() - n
}

/// Read the header byte at `at`, where both bytes exist; `None` where the
/// pair is neither hex nor UTF-8.
fn read_header_byte(lb: &[u8], at: usize, end: usize) -> (r: Option<Result<u8, SfxError>>)
    requires
        at + 2 <= end <= lb@.len(),
    ensures
        match header_byte(lb@.subrange(0, end as int), at as int) {
            Some(Ok(b)) => r matches Some(Ok(x)) && x == b,
            Some(Err(f)) => r matches Some(Err(e)) && e@ == f,
            None => r is None,
        },
{
    let ghost s = lb@.subrange(0, end as int);
    assert(s[at as int] == lb@[at as int] && s[at + 1] == lb@[at + 1]);
    match to_byte(lb[at], lb[at + 1]) {
        Some(b) => Some(Ok(b)),
        None => {
            let pair = slice_pair(lb, at);
            assert(pair@ =~= s.subrange(at as int, at + 2));
            match string_from_utf8(pair) {
                Ok(text) => Some(Err(SfxError::InvalidHex(text))),
                Err(_) => None,
            }
        },
    }
}

/// The two bytes at `at`.
fn slice_pair(lb: &[u8], at: usize) -> (r: Vec<u8>)
    requires
        at + 2 <= lb@.len(),
    ensures
        r@ == lb@.subrange(at as int, at + 2),
{
    let mut v: Vec<u8> = Vec::new();
    v.push(lb[at]);
    v.push(lb[at + 1]);
    assert(v@ =~= lb@.subrange(at as int, at + 2));
    v
}

/// The fault of a field read from `lb` at `at`, as an error.
fn field_error(lb: &[u8], at: usize, end: usize, part: SfxPart) -> (r: SfxError)
    requires
        end <= lb@.len(),
        note_field(lb@.subrange(0, end as int), at as int, part) is Err,
    ensures
        note_field(lb@.subrange(0, end as int), at as int, part) matches Err(f) && r@ == f,
{
    if at >= end {
        SfxError::Missing(part)
    } else {
        SfxError::InvalidHex(char_of_byte(lb[at]))
    }
}

/// Read a field of a note.
fn read_field(lb: &[u8], at: usize, end: usize, part: SfxPart) -> (r: Result<u8, SfxError>)
    requires
        end <= lb@.len(),
    ensures
        match note_field(lb@.subrange(0, end as int), at as int, part) {
            Ok(v) => r matches Ok(x) && x == v,
            Err(f) => r matches Err(e) && e@ == f,
        },
{
    if at >= end {
        Err(SfxError::Missing(part))
    } else {
        match to_nybble(lb[at]) {
            Some(v) => Ok(v),
            None => Err(SfxError::InvalidHex(char_of_byte(lb[at]))),
        }
    }
}

impl Sfx {
    /// Parse a line of an `__sfx__` section.
    pub fn try_from(line: &str) -> (r: Result<Sfx, SfxError>)
        requires
            spec_parse_sfx(line.spec_bytes()) is Some,
        ensures
            sfx_result_matches(r, spec_parse_sfx(line.spec_bytes())),
    {
        let bytes = line.as_bytes();
        Self::parse_bytes(bytes)
    }

    /// Parse the bytes of a line of an `__sfx__` section.
    pub fn parse_bytes(bytes: &[u8]) -> (r: Result<Sfx, SfxError>)
        requires
            spec_parse_sfx(bytes@) is Some,
        ensures
            sfx_result_matches(r, spec_parse_sfx(bytes@)),
    {
        match Self::parse_checked(bytes) {
            Some(r) => r,
            None => Err(SfxError::Missing(SfxPart::EditorMode)),
        }
    }

    /// Parse the bytes of a line of an `__sfx__` section, or `None` where the
    /// line is outside the format: shorter than its header, with more empty
    /// notes than notes, a header pair that is neither hex nor UTF-8, a pitch
    /// above 63 or a volume above 7.
    pub fn parse_checked(bytes: &[u8]) -> (r: Option<Result<Sfx, SfxError>>)
        ensures
            match r {
                None => spec_parse_sfx(bytes@) is None,
                Some(x) => sfx_result_matches(x, spec_parse_sfx(bytes@)),
            },
    {
        let ghost line = bytes@;
        let len = bytes.len();
        if len < 8 {
            return None;
        }
        let tz = count_trailing_zeros(bytes);
        let empty = if tz == len {
            0
        } else {
            tz / 5
        };
        assert(empty == empty_notes(line));
        if empty > (len - 8) / 5 {
            return None;
        }
        let end = len - empty * 5;
        let ghost lb = line.subrange(0, end as int);
        let _editor_mode = read_header_byte(bytes, 0, end)?;
        let note_duration = read_header_byte(bytes, 2, end)?;
        let loop_start = match read_header_byte(bytes, 4, end)? {
            Ok(b) => b,
            Err(e) => { return Some(Err(e)); },
        };
        let loop_end = match read_header_byte(bytes, 6, end)? {
            Ok(b) => b,
            Err(e) => { return Some(Err(e)); },
        };
        let mut notes: Vec<Pico8Note> = Vec::new();
        let mut pos: usize = 8;
        while pos < end
            invariant
                8 <= pos,
                end <= bytes@.len(),
                lb == bytes@.subrange(0, end as int),
                parse_notes(lb, 8) == prepend_notes(notes@, parse_notes(lb, pos as int)),
                header_byte(lb, 4) == Some(Ok::<u8, SfxFault>(loop_start)),
                header_byte(lb, 6) == Some(Ok::<u8, SfxFault>(loop_end)),
                match header_byte(lb, 2) {
                    Some(Ok(b)) => note_duration matches Ok(x) && x == b,
                    Some(Err(f)) => note_duration matches Err(e) && e@ == f,
                    None => false,
                },
                parse_notes(lb, 8) is None ==> spec_parse_sfx(bytes@) is None,
                forall|f: SfxFault|
                    parse_notes(lb, 8) == Some(Err::<Seq<Pico8Note>, SfxFault>(f))
                        ==> spec_parse_sfx(bytes@) == Some(Err::<SfxModel, SfxFault>(f)),
            decreases end - pos,
        {
            let pl = match read_field(bytes, pos + 1, end, SfxPart::PitchLow) {
                Ok(v) => v,
                Err(e) => {
                    assert(parse_note(lb, pos as int) == Some(Err::<Pico8Note, SfxFault>(e@)));
                    return Some(Err(e));
                },
            };
            assert(note_field(lb, pos + 1, SfxPart::PitchLow) == Ok::<u8, SfxFault>(pl));
            let w = match read_field(bytes, pos + 2, end, SfxPart::WaveForm) {
                Ok(v) => v,
                Err(e) => {
                    assert(parse_note(lb, pos as int) == Some(Err::<Pico8Note, SfxFault>(e@)));
                    return Some(Err(e));
                },
            };
            assert(note_field(lb, pos + 2, SfxPart::WaveForm) == Ok::<u8, SfxFault>(w));
            let v = match read_field(bytes, pos + 3, end, SfxPart::Volume) {
                Ok(v) => v,
                Err(e) => {
                    assert(parse_note(lb, pos as int) == Some(Err::<Pico8Note, SfxFault>(e@)));
                    return Some(Err(e));
                },
            };
            assert(note_field(lb, pos + 3, SfxPart::Volume) == Ok::<u8, SfxFault>(v));
            let e = match read_field(bytes, pos + 4, end, SfxPart::Effect) {
                Ok(v) => v,
                Err(e) => {
                    assert(parse_note(lb, pos as int) == Some(Err::<Pico8Note, SfxFault>(e@)));
                    return Some(Err(e));
                },
            };
            assert(note_field(lb, pos + 4, SfxPart::Effect) == Ok::<u8, SfxFault>(e));
            assert(lb[pos as int] == bytes[pos as int]);
            let ph = match to_nybble(bytes[pos]) {
                Some(x) => x,
                None => {
                    return Some(Err(SfxError::InvalidHex(char_of_byte(bytes[pos]))));
                },
            };
            assert((ph << 4u8) | pl == ph * 16 + pl) by (bit_vector)
                requires
                    ph < 16,
                    pl < 16,
            ;
            let p = (ph << 4) | pl;
            if p > 231 {
                return None;
            }
            let midi = p + PITCH_OFFSET;
            let wave = match WaveForm::try_from(w) {
                Ok(x) => x,
                Err(err) => { return Some(Err(err)); },
            };
            let effect = match Effect::try_from(e) {
                Ok(x) => x,
                Err(err) => { return Some(Err(err)); },
            };
            if v > 7 || p > 63 {
                return None;
            }
            assert(spec_wave_index(wave) == w);
            assert(spec_effect_index(effect) == e);
            let note = Pico8Note::new(midi, wave, v, effect);
            let ghost old_notes = notes@;
            notes.push(note);
            assert(notes@ == old_notes + seq![note]);
            assert(old_notes + (seq![note] + seq![]) =~= notes@);
            proof {
                let r = parse_notes(lb, pos + 5);
                match r {
                    Some(Ok(rest)) => {
                        assert(old_notes + (seq![note] + rest) =~= notes@ + rest);
                    },
                    _ => {},
                }
            }
            pos = pos + 5;
        }
        let speed = match note_duration {
            Ok(b) => b,
            Err(e) => { return Some(Err(e)); },
        };
        let sfx = Sfx::new(notes).with_speed(speed).with_loop(
            if loop_start != 0 {
                Some(loop_start)
            } else {
                None
            },
            if loop_end != 0 {
                Some(loop_end)
            } else {
                None
            },
        );
        Some(Ok(sfx))
    }
}

/// The note stored little-endian at bytes `2k` and `2k + 1`.
pub open spec fn stored_note(b: Seq<u8>, k: int) -> Pico8Note {
    Pico8Note((b[2 * k] + 256 * b[2 * k + 1]) as u16)
}

/// The sound effect that 68 bytes of cartridge memory hold: 32 notes of two
/// bytes each, then the editor mode, the speed, the loop start and the loop end
/// (a zero bound is no bound).
pub open spec fn sfx_from_bytes(b: Seq<u8>) -> SfxModel {
    SfxModel {
        notes: Seq::new(32, |k: int| stored_note(b, k)),
        speed: b[65],
        loop_start: loop_bound(b[66]),
        loop_end: loop_bound(b[67]),
    }
}

impl Sfx {
    /// The sound effect held by 68 bytes of cartridge memory.
    pub fn from_u8(bytes: &[u8]) -> (r: Sfx)
        requires
            bytes@.len() == 68,
        ensures
            sfx_matches(r, sfx_from_bytes(bytes@)),
    {
        let mut notes: Vec<Pico8Note> = Vec::new();
        let mut k: usize = 0;
        while k < 32
            invariant
                bytes@.len() == 68,
                k <= 32,
                notes@.len() == k,
                forall|j: int| 0 <= j < k ==> #[trigger] notes@[j] == stored_note(bytes@, j),
            decreases 32 - k,
        {
            let lo = bytes[2 * k] as u16;
            let hi = bytes[2 * k + 1] as u16;
            notes.push(Pico8Note(lo + 256 * hi));
            k = k + 1;
        }
        let ghost m = sfx_from_bytes(bytes@);
        assert(notes@ =~= m.notes);
        let loop_start = if bytes[66] != 0 {
            Some(bytes[66])
        } else {
            None
        };
        let loop_end = if bytes[67] != 0 {
            Some(bytes[67])
        } else {
            None
        };
        Sfx::new(notes).with_speed(bytes[65]).with_loop(loop_start, loop_end)
    }
}

/// A wave form number from 0 to 15 names a wave form with that number, and a
/// wave form's number names it back.
pub proof fn lemma_wave_numbers_round_trip(v: u8, w: WaveForm)
    ensures
        v <= 15 ==> spec_wave_index(spec_wave_form(v)) == v,
        0 <= spec_wave_index(w) <= 15 ==> spec_wave_form(spec_wave_index(w) as u8) == w,
{
}

/// An effect number from 0 to 7 names an effect with that number, and an
/// effect's number names it back.
pub proof fn lemma_effect_numbers_round_trip(v: u8, e: Effect)
    ensures
        v <= 7 ==> spec_effect_index(spec_effect(v)) == v,
        spec_effect(spec_effect_index(e)) == e,
{
}

/// The Pico-8 effect numbers: 0 none, 1 slide, 2 vibrato, 3 drop, 4 fade
/// in, 5 fade out, 6 fast arpeggio, 7 slow arpeggio, read from a number and
/// written back to one.
pub proof fn lemma_pico8_effect_numbers()
    ensures
        spec_effect(0) == Effect::NoEffect && spec_effect_index(Effect::NoEffect) == 0,
        spec_effect(1) == Effect::Slide && spec_effect_index(Effect::Slide) == 1,
        spec_effect(2) == Effect::Vibrato && spec_effect_index(Effect::Vibrato) == 2,
        spec_effect(3) == Effect::Drop && spec_effect_index(Effect::Drop) == 3,
        spec_effect(4) == Effect::FadeIn && spec_effect_index(Effect::FadeIn) == 4,
        spec_effect(5) == Effect::FadeOut && spec_effect_index(Effect::FadeOut) == 5,
        spec_effect(6) == Effect::ArpFast && spec_effect_index(Effect::ArpFast) == 6,
        spec_effect(7) == Effect::ArpSlow && spec_effect_index(Effect::ArpSlow) == 7,
{
}

/// The Pico-8 wave form numbers: 0 triangle, 1 sawtooth, 2 long square, 3
/// short square, 4 ringing, 5 noise, 6 ringing sine, and from 7 on the custom
/// instruments counted from 0, read from a number and written back to one.
pub proof fn lemma_pico8_wave_numbers(c: u8)
    requires
        c <= 248,
    ensures
        spec_wave_form(0) == WaveForm::Triangle && spec_wave_index(WaveForm::Triangle) == 0,
        spec_wave_form(1) == WaveForm::Sawtooth && spec_wave_index(WaveForm::Sawtooth) == 1,
        spec_wave_form(2) == WaveForm::LongSquare && spec_wave_index(WaveForm::LongSquare) == 2,
        spec_wave_form(3) == WaveForm::ShortSquare && spec_wave_index(WaveForm::ShortSquare) == 3,
        spec_wave_form(4) == WaveForm::Ringing && spec_wave_index(WaveForm::Ringing) == 4,
        spec_wave_form(5) == WaveForm::Noise && spec_wave_index(WaveForm::Noise) == 5,
        spec_wave_form(6) == WaveForm::RingingSine && spec_wave_index(WaveForm::RingingSine) == 6,
        spec_wave_form((c + 7) as u8) == WaveForm::Custom(c) && spec_wave_index(WaveForm::Custom(c)) == c + 7,
{
}

/// A note built from a pitch, a wave form numbered below 8, a volume and an
/// effect gives each of them back: its pitch bits plus the offset, its wave
/// bits, its volume bits and its effect bits. (A custom wave form numbered 8
/// or above spills into the volume bits.)
pub proof fn lemma_note_fields_round_trip(pitch: u8, wave: u8, volume: u8, effect: u8)
    requires
        pitch <= 63,
        wave <= 7,
        volume <= 7,
        effect <= 7,
    ensures
        ({
            let n = note_bits(pitch, wave, volume, effect);
            &&& (n & 63u16) == pitch
            &&& ((n >> 6u16) & 7u16) == wave
            &&& ((n >> 9u16) & 7u16) == volume
            &&& ((n >> 12u16) & 7u16) == effect
        }),
{
    let n = note_bits(pitch, wave, volume, effect);
    assert(((((pitch & 63u8) as u16) | ((wave as u16) << 6u16) | (((volume & 7u8) as u16) << 9u16)
        | (((effect as u16) & 7u16) << 12u16)) & 63u16) == pitch as u16) by (bit_vector)
        requires
            pitch <= 63,
            wave <= 7,
            volume <= 7,
            effect <= 7,
    ;
    assert((((((pitch & 63u8) as u16) | ((wave as u16) << 6u16) | (((volume & 7u8) as u16) << 9u16)
        | (((effect as u16) & 7u16) << 12u16)) >> 6u16) & 7u16) == wave as u16) by (bit_vector)
        requires
            pitch <= 63,
            wave <= 7,
            volume <= 7,
            effect <= 7,
    ;
    assert((((((pitch & 63u8) as u16) | ((wave as u16) << 6u16) | (((volume & 7u8) as u16) << 9u16)
        | (((effect as u16) & 7u16) << 12u16)) >> 9u16) & 7u16) == volume as u16) by (bit_vector)
        requires
            pitch <= 63,
            wave <= 7,
            volume <= 7,
            effect <= 7,
    ;
    assert((((((pitch & 63u8) as u16) | ((wave as u16) << 6u16) | (((volume & 7u8) as u16) << 9u16)
        | (((effect as u16) & 7u16) << 12u16)) >> 12u16) & 7u16) == effect as u16) by (bit_vector)
        requires
            pitch <= 63,
            wave <= 7,
            volume <= 7,
            effect <= 7,
    ;
}

} // verus!
