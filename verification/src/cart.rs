//! The `.p8` cartridge text format: sections `__lua__`, `__gfx__`, `__label__`,
//! `__gff__`, `__map__`, `__sfx__` and `__music__`.

use vstd::prelude::*;
use pico8_decompress::Error as DecompressError;
use vstd::string::StringSliceAdditionalSpecFns;
use vstd::utf8::{decode_utf8, encode_utf8, is_char_boundary, valid_utf8};
use crate::audio::{Sfx, SfxError, SfxFault, SfxModel, sfx_matches, spec_parse_sfx};
use crate::gfx::{Gfx, lsb0_bits, max_bits};
use crate::hex::{hex_value, to_nybble};
use crate::lines::{copy_range, decode_hex_rows, hex_rows, lines, split_lines};
use crate::p8scii::{p8scii_to_text, vec_to_utf8};
use crate::text::string_from_utf8;
use crate::audio::sfx_from_bytes;
use crate::code_check::{code_check, code_in_bounds};

verus! {

/// `std::io::Error`, the error of reading a file.
#[verifier::external_type_specification]
#[verifier::external_body]
pub struct ExIoError(std::io::Error);

/// `pico8_decompress::Error`, the error of decompressing cartridge code.
#[verifier::external_type_specification]
#[verifier::external_body]
pub struct ExDecompressError(DecompressError);

/// Errors in loading a cartridge.
#[derive(Debug)]
pub enum CartLoaderError {
    Io(std::io::Error),
    Utf8(std::string::FromUtf8Error),
    UnexpectedHeader(String),
    UnexpectedHex(char),
    Missing(String),
    Sfx(SfxError),
    Decompression(String),
}

/// What a [`CartLoaderError`] says, with its text as characters.
pub enum CartFault {
    Io,
    Utf8,
    UnexpectedHeader(Seq<char>),
    UnexpectedHex(char),
    Missing(Seq<char>),
    Sfx(SfxFault),
    Decompression(Seq<char>),
}

impl View for CartLoaderError {
    type V = CartFault;

    open spec fn view(&self) -> CartFault {
        match self {
            CartLoaderError::Io(_) => CartFault::Io,
            CartLoaderError::Utf8(_) => CartFault::Utf8,
            CartLoaderError::UnexpectedHeader(s) => CartFault::UnexpectedHeader(s@),
            CartLoaderError::UnexpectedHex(c) => CartFault::UnexpectedHex(*c),
            CartLoaderError::Missing(s) => CartFault::Missing(s@),
            CartLoaderError::Sfx(e) => CartFault::Sfx(e@),
            CartLoaderError::Decompression(s) => CartFault::Decompression(s@),
        }
    }
}

/// A pattern of the music section.
#[derive(Debug)]
pub struct MusicParts {
    pub begin: bool,
    pub end: bool,
    pub stop: bool,
    pub patterns: Vec<u8>,
}

/// A cartridge.
pub struct Cart {
    pub lua: String,
    pub gfx: Option<Gfx<4>>,
    pub map: Vec<u8>,
    pub flags: Vec<u8>,
    pub sfx: Vec<Sfx>,
    pub music: Vec<MusicParts>,
}

/// The section that a header names: lua, gfx, label, gff, map, sfx, music.
pub open spec fn header_index(h: Seq<u8>) -> Option<int> {
    if h == seq![108u8, 117, 97] {
        Some(0)
    } else if h == seq![103u8, 102, 120] {
        Some(1)
    } else if h == seq![108u8, 97, 98, 101, 108] {
        Some(2)
    } else if h == seq![103u8, 102, 102] {
        Some(3)
    } else if h == seq![109u8, 97, 112] {
        Some(4)
    } else if h == seq![115u8, 102, 120] {
        Some(5)
    } else if h == seq![109u8, 117, 115, 105, 99] {
        Some(6)
    } else {
        None
    }
}

/// Where each section starts and ends, where known.
pub type Sections = Seq<(Option<int>, Option<int>)>;

/// The last section before `h` that has started and not ended.
pub open spec fn last_open(secs: Sections, h: int) -> Option<int>
    decreases h,
{
    if h <= 0 {
        None
    } else if secs[h - 1].0 is Some && secs[h - 1].1 is None {
        Some(h - 1)
    } else {
        last_open(secs, h - 1)
    }
}

/// Start section `h` at `start`, and end the last open section before it at `prev_end`.
pub open spec fn open_section(secs: Sections, h: int, start: int, prev_end: int) -> Sections {
    let s1 = secs.update(h, (Some(start), secs[h].1));
    match last_open(s1, h) {
        Some(k) => s1.update(k, (s1[k].0, Some(prev_end))),
        None => s1,
    }
}

/// End the last open section at `end`.
pub open spec fn close_last(secs: Sections, end: int) -> Sections {
    match last_open(secs, 7) {
        Some(k) => secs.update(k, (secs[k].0, Some(end))),
        None => secs,
    }
}

/// No section has started yet.
pub open spec fn no_sections() -> Sections {
    Seq::new(7, |_i: int| (None::<int>, None::<int>))
}

/// Scan the text for `__name__` headers from position `i`: each pair of
/// underscores is a match, scanning on after it; a match at the start of a
/// line opens a header that the next match closes. An unknown name is
/// reported by its range.
pub open spec fn scan(s: Seq<u8>, i: int, even: Option<int>, secs: Sections) -> Result<
    Sections,
    (int, int),
>
    decreases s.len() - i,
{
    if i < 0 || i + 2 > s.len() {
        Ok(close_last(secs, s.len() as int))
    } else if s[i] == 95 && s[i + 1] == 95 {
        match even {
            Some(begin) => match header_index(s.subrange(begin + 2, i)) {
                Some(h) => scan(s, i + 2, None, open_section(secs, h, i + 3, begin - 1)),
                None => Err((begin + 2, i)),
            },
            None => scan(
                s,
                i + 2,
                if i == 0 || s[i - 1] == 10 {
                    Some(i)
                } else {
                    None
                },
                secs,
            ),
        }
    } else {
        scan(s, i + 1, even, secs)
    }
}

/// Can the text be sliced between `a` and `b`?
pub open spec fn sliceable(s: Seq<u8>, a: int, b: int) -> bool {
    a <= b && is_char_boundary(s, a) && is_char_boundary(s, b)
}

/// The text of a section: `Some(None)` where it is absent, `None` where it
/// cannot be sliced.
pub open spec fn segment(s: Seq<u8>, sec: (Option<int>, Option<int>)) -> Option<Option<Seq<u8>>> {
    match sec {
        (Some(a), Some(b)) => if sliceable(s, a, b) {
            Some(Some(s.subrange(a, b)))
        } else {
            None
        },
        _ => Some(None),
    }
}

/// A decoded image: its bytes, width and height.
pub struct GfxModel {
    pub bytes: Seq<u8>,
    pub width: nat,
    pub height: nat,
}

/// The rows of a `__gfx__` section, rounded up to a multiple of eight.
pub open spec fn gfx_rows(n: nat) -> nat {
    if n % 8 != 0 {
        (n / 8 + 1) * 8
    } else {
        n
    }
}

/// The image of a `__gfx__` section: one hex digit per pixel, the first of
/// each pair in the low nybble, padded with zeros to whole blocks of eight rows.
pub open spec fn parse_gfx(seg: Seq<u8>) -> Option<Result<Option<GfxModel>, u8>> {
    let ls = lines(seg);
    if ls.len() == 0 {
        Some(Ok(None))
    } else {
        let columns = ls[0].len();
        let rows = gfx_rows(ls.len());
        match hex_rows(ls, 0, columns as int, true) {
            None => None,
            Some(Err(c)) => Some(Err(c)),
            Some(Ok(_)) if columns * rows > usize::MAX || (columns * rows / 2) * 8 > max_bits() => None,
            Some(Ok(b)) => Some(
                Ok(
                    Some(
                        GfxModel {
                            bytes: b + Seq::new((columns * rows / 2 - b.len()) as nat, |_i: int| 0u8),
                            width: columns,
                            height: rows,
                        },
                    ),
                ),
            ),
        }
    }
}

/// The bytes of a `__gff__` or `__map__` section: two hex digits per byte.
pub open spec fn parse_bytes_section(seg: Seq<u8>) -> Option<Result<Seq<u8>, u8>> {
    let ls = lines(seg);
    if ls.len() == 0 {
        Some(Ok(seq![]))
    } else {
        hex_rows(ls, 0, ls[0].len() as int, false)
    }
}

/// A pattern of the music section as a value.
pub struct MusicModel {
    pub begin: bool,
    pub end: bool,
    pub stop: bool,
    pub patterns: Seq<u8>,
}

/// The channel bytes of a music line from position `j` on, `k` read so far.
pub open spec fn music_channels(line: Seq<u8>, j: int, k: int) -> Option<Result<Seq<u8>, u8>>
    decreases line.len() - j,
{
    if j < 0 || j >= line.len() {
        Some(Ok(seq![]))
    } else {
        match hex_value(line[j]) {
            None => Some(Err(line[j])),
            Some(a) => if j + 1 >= line.len() {
                None
            } else {
                match hex_value(line[j + 1]) {
                    None => Some(Err(line[j + 1])),
                    Some(b) => if k >= 4 {
                        None
                    } else {
                        match music_channels(line, j + 2, k + 1) {
                            None => None,
                            Some(Err(c)) => Some(Err(c)),
                            Some(Ok(rest)) => Some(Ok(seq![(a * 16 + b) as u8] + rest)),
                        }
                    },
                }
            },
        }
    }
}

/// The channels whose byte has bit 6 set.
pub open spec fn flagged_channels(ps: Seq<u8>) -> Seq<u8>
    decreases ps.len(),
{
    if ps.len() == 0 {
        seq![]
    } else {
        flagged_channels(ps.drop_last()) + (if ps.last() & 64u8 != 0 {
            seq![ps.last()]
        } else {
            seq![]
        })
    }
}

/// A line of the music section: a flag byte, a space, and four channel bytes.
pub open spec fn music_line(line: Seq<u8>, columns: int) -> Option<Result<MusicModel, u8>> {
    if line.len() != columns {
        None
    } else {
        match hex_value(line[0]) {
            None => Some(Err(line[0])),
            Some(h) => if line.len() < 2 {
                None
            } else {
                match hex_value(line[1]) {
                    None => Some(Err(line[1])),
                    Some(l) => match music_channels(line, 3, 0) {
                        None => None,
                        Some(Err(c)) => Some(Err(c)),
                        Some(Ok(chs)) => {
                            let lead = (h * 16 + l) as u8;
                            let all = chs + Seq::new((4 - chs.len()) as nat, |_i: int| 0u8);
                            Some(
                                Ok(
                                    MusicModel {
                                        begin: lead & 1u8 != 0,
                                        end: lead & 2u8 != 0,
                                        stop: lead & 4u8 != 0,
                                        patterns: flagged_channels(all),
                                    },
                                ),
                            )
                        },
                    },
                }
            },
        }
    }
}

/// The music lines `k..` of `ls`, empty lines left out.
pub open spec fn music_lines(ls: Seq<Seq<u8>>, k: int, columns: int) -> Option<
    Result<Seq<MusicModel>, u8>,
>
    decreases ls.len() - k,
{
    if k < 0 || k >= ls.len() {
        Some(Ok(seq![]))
    } else if ls[k].len() == 0 {
        music_lines(ls, k + 1, columns)
    } else {
        match music_line(ls[k], columns) {
            None => None,
            Some(Err(c)) => Some(Err(c)),
            Some(Ok(m)) => match music_lines(ls, k + 1, columns) {
                None => None,
                Some(Err(c)) => Some(Err(c)),
                Some(Ok(rest)) => Some(Ok(seq![m] + rest)),
            },
        }
    }
}

/// The music section.
pub open spec fn parse_music(seg: Seq<u8>) -> Option<Result<Seq<MusicModel>, u8>> {
    let ls = lines(seg);
    if ls.len() == 0 {
        Some(Ok(seq![]))
    } else {
        music_lines(ls, 0, ls[0].len() as int)
    }
}

/// The sound effects of lines `k..`.
pub open spec fn sfx_lines(ls: Seq<Seq<u8>>, k: int) -> Option<Result<Seq<SfxModel>, SfxFault>>
    decreases ls.len() - k,
{
    if k < 0 || k >= ls.len() {
        Some(Ok(seq![]))
    } else {
        match spec_parse_sfx(ls[k]) {
            None => None,
            Some(Err(f)) => Some(Err(f)),
            Some(Ok(m)) => match sfx_lines(ls, k + 1) {
                None => None,
                Some(Err(f)) => Some(Err(f)),
                Some(Ok(rest)) => Some(Ok(seq![m] + rest)),
            },
        }
    }
}

/// A cartridge as a value.
pub struct CartModel {
    pub lua: Seq<char>,
    pub gfx: Option<GfxModel>,
    pub map: Seq<u8>,
    pub flags: Seq<u8>,
    pub sfx: Seq<SfxModel>,
    pub music: Seq<MusicModel>,
}

/// How parsing a cartridge ends: `None` where the text is outside the format
/// (a section that cannot be sliced, rows of unequal length or cut short, too
/// many music channels, an sfx line outside its format), else the cartridge or
/// the error.
pub type CartOutcome = Option<Result<CartModel, CartFault>>;

/// The hex fault of a byte.
pub open spec fn hex_fault(c: u8) -> CartFault {
    CartFault::UnexpectedHex(c as char)
}

/// The cartridge that `s` holds, section by section in the order in which
/// the sections are read: lua, gfx, gff, map, music, sfx.
pub open spec fn spec_parse_cart(s: Seq<u8>) -> CartOutcome {
    match scan(s, 0, None, no_sections()) {
        Err((a, b)) => if sliceable(s, a, b) {
            Some(Err(CartFault::UnexpectedHeader(decode_utf8(s.subrange(a, b)))))
        } else {
            None
        },
        Ok(secs) => match segment(s, secs[0]) {
            None => None,
            Some(lua_seg) => match segment(s, secs[1]) {
                None => None,
                Some(gfx_seg) => match (match gfx_seg {
                    None => Some(Ok(None)),
                    Some(g) => parse_gfx(g),
                }) {
                    None => None,
                    Some(Err(c)) => Some(Err(hex_fault(c))),
                    Some(Ok(gfx)) => match segment(s, secs[3]) {
                        None => None,
                        Some(gff_seg) => match (match gff_seg {
                            None => Some(Ok(seq![])),
                            Some(g) => parse_bytes_section(g),
                        }) {
                            None => None,
                            Some(Err(c)) => Some(Err(hex_fault(c))),
                            Some(Ok(flags)) => match segment(s, secs[4]) {
                                None => None,
                                Some(map_seg) => match (match map_seg {
                                    None => Some(Ok(seq![])),
                                    Some(m) => parse_bytes_section(m),
                                }) {
                                    None => None,
                                    Some(Err(c)) => Some(Err(hex_fault(c))),
                                    Some(Ok(map)) => match segment(s, secs[6]) {
                                        None => None,
                                        Some(music_seg) => match (match music_seg {
                                            None => Some(Ok(seq![])),
                                            Some(m) => parse_music(m),
                                        }) {
                                            None => None,
                                            Some(Err(c)) => Some(Err(hex_fault(c))),
                                            Some(Ok(music)) => match segment(s, secs[5]) {
                                                None => None,
                                                Some(sfx_seg) => match (match sfx_seg {
                                                    None => Some(Ok(seq![])),
                                                    Some(x) => sfx_lines(lines(x), 0),
                                                }) {
                                                    None => None,
                                                    Some(Err(f)) => Some(Err(CartFault::Sfx(f))),
                                                    Some(Ok(sfx)) => Some(
                                                        Ok(
                                                            CartModel {
                                                                lua: match lua_seg {
                                                                    Some(l) => decode_utf8(l),
                                                                    None => seq![],
                                                                },
                                                                gfx,
                                                                map,
                                                                flags,
                                                                sfx,
                                                                music,
                                                            },
                                                        ),
                                                    ),
                                                },
                                            },
                                        },
                                    },
                                },
                            },
                        },
                    },
                },
            },
        },
    }
}

/// An optional position as an integer.
pub open spec fn opt_int(o: Option<usize>) -> Option<int> {
    match o {
        Some(x) => Some(x as int),
        None => None,
    }
}

/// Section bounds as integers.
pub open spec fn secs_view(v: Seq<(Option<usize>, Option<usize>)>) -> Sections {
    Seq::new(v.len(), |k: int| (opt_int(v[k].0), opt_int(v[k].1)))
}

/// Has any section started?
pub open spec fn any_started(v: Sections) -> bool {
    exists|k: int| 0 <= k < v.len() && (#[trigger] v[k]).0 is Some
}

proof fn lemma_last_open_started(v: Sections, h: int)
    requires
        last_open(v, h) is Some,
        h <= v.len(),
    ensures
        any_started(v),
        last_open(v, h) matches Some(k) && 0 <= k < h && v[k].0 is Some && v[k].1 is None,
    decreases h,
{
    if h > 0 && !(v[h - 1].0 is Some && v[h - 1].1 is None) {
        lemma_last_open_started(v, h - 1);
    }
}

/// Does `s[a..b]` equal `word`?
fn range_eq(s: &[u8], a: usize, b: usize, word: &[u8]) -> (r: bool)
    requires
        a <= b <= s@.len(),
    ensures
        r == (s@.subrange(a as int, b as int) == word@),
{
    if b - a != word.len() {
        return false;
    }
    let mut k: usize = 0;
    while k < word.len()
        invariant
            a <= b <= s@.len(),
            b - a == word@.len(),
            k <= word@.len(),
            forall|t: int| 0 <= t < k ==> s@[a + t] == word@[t],
        decreases word@.len() - k,
    {
        if s[a + k] != word[k] {
            assert(s@.subrange(a as int, b as int)[k as int] != word@[k as int]);
            return false;
        }
        k = k + 1;
    }
    assert(s@.subrange(a as int, b as int) =~= word@);
    true
}

/// The section that `s[a..b]` names.
fn header_index_of(s: &[u8], a: usize, b: usize) -> (r: Option<usize>)
    requires
        a <= b <= s@.len(),
    ensures
        opt_int(r) == header_index(s@.subrange(a as int, b as int)),
{
    let ghost h = s@.subrange(a as int, b as int);
    let w0: [u8; 3] = [108, 117, 97];
    let w1: [u8; 3] = [103, 102, 120];
    let w2: [u8; 5] = [108, 97, 98, 101, 108];
    let w3: [u8; 3] = [103, 102, 102];
    let w4: [u8; 3] = [109, 97, 112];
    let w5: [u8; 3] = [115, 102, 120];
    let w6: [u8; 5] = [109, 117, 115, 105, 99];
    assert(w0@ =~= seq![108u8, 117, 97]);
    assert(w1@ =~= seq![103u8, 102, 120]);
    assert(w2@ =~= seq![108u8, 97, 98, 101, 108]);
    assert(w3@ =~= seq![103u8, 102, 102]);
    assert(w4@ =~= seq![109u8, 97, 112]);
    assert(w5@ =~= seq![115u8, 102, 120]);
    assert(w6@ =~= seq![109u8, 117, 115, 105, 99]);
    if range_eq(s, a, b, &w0) {
        Some(0)
    } else if range_eq(s, a, b, &w1) {
        Some(1)
    } else if range_eq(s, a, b, &w2) {
        Some(2)
    } else if range_eq(s, a, b, &w3) {
        Some(3)
    } else if range_eq(s, a, b, &w4) {
        Some(4)
    } else if range_eq(s, a, b, &w5) {
        Some(5)
    } else if range_eq(s, a, b, &w6) {
        Some(6)
    } else {
        None
    }
}

/// End the last open section before `h` at `end`.
fn end_last_open(secs: &mut Vec<(Option<usize>, Option<usize>)>, h: usize, end: usize)
    requires
        h <= old(secs)@.len(),
    ensures
        final(secs)@.len() == old(secs)@.len(),
        secs_view(final(secs)@) == match last_open(secs_view(old(secs)@), h as int) {
            Some(k) => secs_view(old(secs)@).update(
                k,
                (secs_view(old(secs)@)[k].0, Some(end as int)),
            ),
            None => secs_view(old(secs)@),
        },
{
    let ghost v = secs_view(secs@);
    let mut k = h;
    while k > 0
        invariant
            k <= h <= secs@.len(),
            secs@ == old(secs)@,
            v == secs_view(secs@),
            last_open(v, h as int) == last_open(v, k as int),
        decreases k,
    {
        let (st, en) = secs[k - 1];
        if st.is_some() && en.is_none() {
            secs.set(k - 1, (st, Some(end)));
            assert(secs_view(secs@) =~= v.update(k - 1, (v[k - 1].0, Some(end as int))));
            return;
        }
        k = k - 1;
    }
}

/// How the header scan ends in code.
pub enum ScanEnd {
    Done(Vec<(Option<usize>, Option<usize>)>),
    BadHeader(usize, usize),
}

/// Scan `s` for section headers.
fn scan_sections(s: &[u8]) -> (r: ScanEnd)
    requires
        s@.len() + 3 <= usize::MAX,
    ensures
        match scan(s@, 0, None, no_sections()) {
            Ok(secs) => r matches ScanEnd::Done(v) && v@.len() == 7 && secs_view(v@) == secs,
            Err((a, b)) => r matches ScanEnd::BadHeader(x, y) && x == a && y == b,
        },
{
    let len = s.len();
    let mut secs: Vec<(Option<usize>, Option<usize>)> = Vec::new();
    let mut t: usize = 0;
    while t < 7
        invariant
            t <= 7,
            secs@.len() == t,
            forall|q: int| 0 <= q < t ==> #[trigger] secs@[q] == (None::<usize>, None::<usize>),
        decreases 7 - t,
    {
        secs.push((None, None));
        t = t + 1;
    }
    assert(secs_view(secs@) =~= no_sections());
    let mut even: Option<usize> = None;
    let mut i: usize = 0;
    while i + 2 <= len
        invariant
            len == s@.len(),
            len + 3 <= usize::MAX,
            i <= len + 1,
            secs@.len() == 7,
            scan(s@, 0, None, no_sections()) == scan(s@, i as int, opt_int(even), secs_view(secs@)),
            even matches Some(b) ==> b + 2 <= i,
            any_started(secs_view(secs@)) ==> i >= 2,
            any_started(secs_view(secs@)) ==> (even matches Some(b) ==> b >= 2),
        decreases len + 2 - i,
    {
        if s[i] == 95 && s[i + 1] == 95 {
            match even {
                Some(begin) => {
                    match header_index_of(s, begin + 2, i) {
                        Some(h) => {
                            let ghost v0 = secs_view(secs@);
                            let old_end = secs[h].1;
                            secs.set(h, (Some(i + 3), old_end));
                            let ghost v1 = secs_view(secs@);
                            assert(v1 =~= v0.update(h as int, (Some(i + 3), v0[h as int].1)));
                            proof {
                                if last_open(v1, h as int) is Some {
                                    lemma_last_open_started(v1, h as int);
                                    let k = last_open(v1, h as int)->0;
                                    assert(v0[k] == v1[k]);
                                    assert(any_started(v0));
                                }
                            }
                            let prev_end = if begin >= 1 {
                                begin - 1
                            } else {
                                0
                            };
                            end_last_open(&mut secs, h, prev_end);
                            proof {
                                assert(secs_view(secs@)[h as int].0 is Some);
                                assert(any_started(secs_view(secs@)));
                            }
                            even = None;
                        },
                        None => {
                            return ScanEnd::BadHeader(begin + 2, i);
                        },
                    }
                },
                None => {
                    if i == 0 || s[i - 1] == 10 {
                        even = Some(i);
                    }
                },
            }
            i = i + 2;
        } else {
            i = i + 1;
        }
    }
    let ghost v = secs_view(secs@);
    end_last_open(&mut secs, 7, len);
    ScanEnd::Done(secs)
}

/// The text of a section, copied, where it can be sliced.
fn section_text(content: &str, sec: (Option<usize>, Option<usize>)) -> (r: Option<Option<Vec<u8>>>)
    ensures
        match segment(content.spec_bytes(), (opt_int(sec.0), opt_int(sec.1))) {
            None => r is None,
            Some(None) => r == Some(None::<Vec<u8>>),
            Some(Some(t)) => r matches Some(Some(v)) && v@ == t,
        },
        r matches Some(Some(v)) ==> v@.len() <= content.spec_bytes().len(),
{
    match sec {
        (Some(a), Some(b)) => {
            if a <= b && content.is_char_boundary(a) && content.is_char_boundary(b) {
                let bytes = content.as_bytes();
                proof {
                    vstd::utf8::encode_utf8_valid_utf8(content@);
                    if b > bytes@.len() {
                        assert(!is_char_boundary(content.spec_bytes(), b as int));
                    }
                }
                Some(Some(copy_range(bytes, a, b)))
            } else {
                None
            }
        },
        _ => Some(None),
    }
}

proof fn lemma_boundary_in_suffix(s: Seq<u8>, a: int, b: int)
    requires
        valid_utf8(s),
        sliceable(s, a, b),
    ensures
        0 <= a <= b <= s.len(),
        valid_utf8(s.subrange(a, s.len() as int)),
        is_char_boundary(s.subrange(a, s.len() as int), b - a),
{
    if a < 0 || a > s.len() {
        assert(!is_char_boundary(s, a));
    }
    if b > s.len() {
        assert(!is_char_boundary(s, b));
    }
    vstd::utf8::valid_utf8_split(s, a);
    let t = s.subrange(a, s.len() as int);
    if b == s.len() {
        vstd::utf8::is_char_boundary_start_end_of_seq(t);
    } else {
        vstd::utf8::is_char_boundary_iff_not_is_continuation_byte(s, b);
        vstd::utf8::is_char_boundary_iff_not_is_continuation_byte(t, b - a);
        assert(t[b - a] == s[b]);
    }
}

/// The text of `content` between `a` and `b`, which can be sliced there.
fn slice_string(content: &str, a: usize, b: usize) -> (r: String)
    requires
        sliceable(content.spec_bytes(), a as int, b as int),
    ensures
        r@ == decode_utf8(content.spec_bytes().subrange(a as int, b as int)),
{
    let ghost s = content.spec_bytes();
    proof {
        vstd::utf8::encode_utf8_valid_utf8(content@);
        lemma_boundary_in_suffix(s, a as int, b as int);
    }
    let (_, rest) = content.split_at(a);
    assert(rest.spec_bytes() =~= s.subrange(a as int, s.len() as int));
    let (mid, _) = rest.split_at(b - a);
    assert(mid.spec_bytes() =~= s.subrange(a as int, b as int));
    proof {
        vstd::utf8::encode_utf8_decode_utf8(mid@);
    }
    mid.to_owned()
}

/// Round a row count up to a multiple of eight.
fn round_rows(n: usize) -> (r: usize)
    requires
        n + 8 <= usize::MAX,
    ensures
        r == gfx_rows(n as nat),
{
    if n % 8 != 0 {
        (n / 8 + 1) * 8
    } else {
        n
    }
}

/// Parse a `__gfx__` section.
fn gfx_section(seg: &Vec<u8>) -> (r: Option<Result<Option<Gfx<4>>, u8>>)
    requires
        seg@.len() + 8 <= usize::MAX,
    ensures
        match parse_gfx(seg@) {
            None => r is None,
            Some(Err(c)) => r == Some(Err::<Option<Gfx<4>>, u8>(c)),
            Some(Ok(None)) => r matches Some(Ok(None)),
            Some(Ok(Some(m))) => r matches Some(Ok(Some(g))) && g.width == m.width && g.height
                == m.height && g.pixels() == lsb0_bits(m.bytes),
        },
{
    let ls = split_lines(seg.as_slice());
    if ls.len() == 0 {
        return Some(Ok(None));
    }
    assert(ls@.map_values(|l: Vec<u8>| l@) =~= lines(seg@));
    let columns = ls[0].len();
    let decoded = match decode_hex_rows(&ls, columns, true) {
        None => {
            return None;
        },
        Some(Err(c)) => {
            return Some(Err(c));
        },
        Some(Ok(b)) => b,
    };
    proof {
        crate::lines::lemma_lines_len(seg@, 0);
    }
    let rows = round_rows(ls.len());
    let cells = match columns.checked_mul(rows) {
        Some(x) => x,
        None => {
            return None;
        },
    };
    let size = cells / 2;
    assert(rows % 8 == 0);
    let ghost q = rows / 8;
    assert(cells == 2 * (columns * 4 * q)) by (nonlinear_arith)
        requires
            cells == columns * rows,
            rows == 8 * q,
    ;
    if size > (usize::MAX >> 3usize) / 8 {
        return None;
    }
    let mut bytes = decoded;
    let ghost b = bytes@;
    proof {
        crate::lines::lemma_hex_rows_len(lines(seg@), 0, columns as int, true);
        vstd::arithmetic::mul::lemma_mul_inequality(ls@.len() as int, rows as int, columns as int);
        vstd::arithmetic::mul::lemma_mul_is_commutative(columns as int, rows as int);
    }
    while bytes.len() < size
        invariant
            bytes@.len() <= size,
            b.len() <= bytes@.len(),
            bytes@.subrange(0, b.len() as int) == b,
            forall|i: int| b.len() <= i < bytes@.len() ==> bytes@[i] == 0u8,
            b.len() <= size,
        decreases size - bytes@.len(),
    {
        let ghost prev = bytes@;
        bytes.push(0);
        assert(bytes@.subrange(0, b.len() as int) =~= prev.subrange(0, b.len() as int));
    }
    assert(bytes@ =~= b + Seq::new((size - b.len()) as nat, |_i: int| 0u8));
    Some(Ok(Some(Gfx::<4>::from_vec(columns, rows, bytes))))
}

/// Parse a `__gff__` or `__map__` section.
fn bytes_section(seg: &Vec<u8>) -> (r: Option<Result<Vec<u8>, u8>>)
    ensures
        match parse_bytes_section(seg@) {
            None => r is None,
            Some(Err(c)) => r == Some(Err::<Vec<u8>, u8>(c)),
            Some(Ok(b)) => r matches Some(Ok(v)) && v@ == b,
        },
{
    let ls = split_lines(seg.as_slice());
    if ls.len() == 0 {
        return Some(Ok(Vec::new()));
    }
    assert(ls@.map_values(|l: Vec<u8>| l@) =~= lines(seg@));
    decode_hex_rows(&ls, ls[0].len(), false)
}

/// Put `prefix` before the items of an outcome.
pub open spec fn prepend_items<T, E>(prefix: Seq<T>, r: Option<Result<Seq<T>, E>>) -> Option<
    Result<Seq<T>, E>,
> {
    match r {
        None => None,
        Some(Err(c)) => Some(Err(c)),
        Some(Ok(rest)) => Some(Ok(prefix + rest)),
    }
}

/// Does `m` hold what `mm` describes?
pub open spec fn music_matches(m: MusicParts, mm: MusicModel) -> bool {
    &&& m.begin == mm.begin
    &&& m.end == mm.end
    &&& m.stop == mm.stop
    &&& m.patterns@ == mm.patterns
}

/// Parse a non-empty line of the music section.
fn music_line_parse(line: &Vec<u8>, columns: usize) -> (r: Option<Result<MusicParts, u8>>)
    requires
        line@.len() > 0,
    ensures
        match music_line(line@, columns as int) {
            None => r is None,
            Some(Err(c)) => r matches Some(Err(x)) && x == c,
            Some(Ok(m)) => r matches Some(Ok(p)) && music_matches(p, m),
        },
{
    let len = line.len();
    if len != columns {
        return None;
    }
    let h = match to_nybble(line[0]) {
        Some(x) => x,
        None => {
            return Some(Err(line[0]));
        },
    };
    if len < 2 {
        return None;
    }
    let l = match to_nybble(line[1]) {
        Some(x) => x,
        None => {
            return Some(Err(line[1]));
        },
    };
    let mut chs: Vec<u8> = Vec::new();
    let mut j: usize = 3;
    while j < len
        invariant
            len == line@.len(),
            len == columns,
            len >= 2,
            hex_value(line@[0]) == Some(h),
            hex_value(line@[1]) == Some(l),
            j == 3 + 2 * chs@.len(),
            chs@.len() <= 4,
            music_channels(line@, 3, 0) == prepend_items(
                chs@,
                music_channels(line@, j as int, chs@.len() as int),
            ),
        decreases len - j,
    {
        let a = match to_nybble(line[j]) {
            Some(x) => x,
            None => {
                return Some(Err(line[j]));
            },
        };
        if j + 1 >= len {
            return None;
        }
        let b = match to_nybble(line[j + 1]) {
            Some(x) => x,
            None => {
                return Some(Err(line[j + 1]));
            },
        };
        if chs.len() >= 4 {
            return None;
        }
        let ghost before = chs@;
        chs.push(a * 16 + b);
        proof {
            match music_channels(line@, j + 2, chs@.len() as int) {
                Some(Ok(rest)) => {
                    assert(before + (seq![(a * 16 + b) as u8] + rest) =~= chs@ + rest);
                },
                _ => {},
            }
        }
        j = j + 2;
    }
    assert(chs@ + seq![] =~= chs@);
    let ghost found = chs@;
    while chs.len() < 4
        invariant
            chs@.len() <= 4,
            found.len() <= chs@.len(),
            chs@ =~= found + Seq::new((chs@.len() - found.len()) as nat, |_i: int| 0u8),
        decreases 4 - chs@.len(),
    {
        chs.push(0);
    }
    let ghost all = chs@;
    assert(all =~= found + Seq::new((4 - found.len()) as nat, |_i: int| 0u8));
    let mut patterns: Vec<u8> = Vec::new();
    let mut t: usize = 0;
    while t < 4
        invariant
            t <= 4,
            chs@ == all,
            all.len() == 4,
            patterns@ == flagged_channels(all.subrange(0, t as int)),
        decreases 4 - t,
    {
        let p = chs[t];
        assert(all.subrange(0, t + 1).drop_last() =~= all.subrange(0, t as int));
        if p & 64 != 0 {
            patterns.push(p);
        }
        t = t + 1;
    }
    assert(all.subrange(0, 4) =~= all);
    let lead = h * 16 + l;
    Some(Ok(MusicParts { begin: lead & 1 != 0, end: lead & 2 != 0, stop: lead & 4 != 0, patterns }))
}

/// Parse a `__music__` section.
fn music_section(seg: &Vec<u8>) -> (r: Option<Result<Vec<MusicParts>, u8>>)
    ensures
        match parse_music(seg@) {
            None => r is None,
            Some(Err(c)) => r matches Some(Err(x)) && x == c,
            Some(Ok(ms)) => r matches Some(Ok(v)) && v@.len() == ms.len() && forall|i: int|
                0 <= i < ms.len() ==> music_matches(#[trigger] v@[i], ms[i]),
        },
{
    let ls = split_lines(seg.as_slice());
    let mut out: Vec<MusicParts> = Vec::new();
    if ls.len() == 0 {
        return Some(Ok(out));
    }
    let ghost views = ls@.map_values(|l: Vec<u8>| l@);
    assert(views =~= lines(seg@));
    let columns = ls[0].len();
    let ghost models: Seq<MusicModel> = seq![];
    let mut k: usize = 0;
    while k < ls.len()
        invariant
            k <= ls@.len(),
            views == ls@.map_values(|l: Vec<u8>| l@),
            views == lines(seg@),
            columns == views[0].len(),
            out@.len() == models.len(),
            forall|i: int| 0 <= i < models.len() ==> music_matches(#[trigger] out@[i], models[i]),
            parse_music(seg@) == prepend_items(models, music_lines(views, k as int, columns as int)),
        decreases ls@.len() - k,
    {
        assert(views[k as int] == ls@[k as int]@);
        if ls[k].len() == 0 {
            k = k + 1;
        } else {
            match music_line_parse(&ls[k], columns) {
                None => {
                    return None;
                },
                Some(Err(c)) => {
                    return Some(Err(c));
                },
                Some(Ok(p)) => {
                    let ghost m = music_line(views[k as int], columns as int)->Some_0->Ok_0;
                    proof {
                        match music_lines(views, k + 1, columns as int) {
                            Some(Ok(rest)) => {
                                assert(models + (seq![m] + rest) =~= models.push(m) + rest);
                            },
                            _ => {},
                        }
                        models = models.push(m);
                    }
                    out.push(p);
                    k = k + 1;
                },
            }
        }
    }
    assert(models + seq![] =~= models);
    Some(Ok(out))
}

/// Do parsed sound effects hold what the models describe?
pub open spec fn sfxs_match(v: Seq<Sfx>, ms: Seq<SfxModel>) -> bool {
    v.len() == ms.len() && forall|i: int| 0 <= i < ms.len() ==> sfx_matches(#[trigger] v[i], ms[i])
}

/// Parse an `__sfx__` section, a sound effect per line.
fn sfx_section(seg: &Vec<u8>) -> (r: Option<Result<Vec<Sfx>, SfxError>>)
    ensures
        match sfx_lines(lines(seg@), 0) {
            None => r is None,
            Some(Err(f)) => r matches Some(Err(e)) && e@ == f,
            Some(Ok(ms)) => r matches Some(Ok(v)) && sfxs_match(v@, ms),
        },
{
    let ls = split_lines(seg.as_slice());
    let ghost views = ls@.map_values(|l: Vec<u8>| l@);
    assert(views =~= lines(seg@));
    let mut out: Vec<Sfx> = Vec::new();
    let ghost models: Seq<SfxModel> = seq![];
    let mut k: usize = 0;
    while k < ls.len()
        invariant
            k <= ls@.len(),
            views == ls@.map_values(|l: Vec<u8>| l@),
            views == lines(seg@),
            sfxs_match(out@, models),
            sfx_lines(views, 0) == prepend_items(models, sfx_lines(views, k as int)),
        decreases ls@.len() - k,
    {
        assert(views[k as int] == ls@[k as int]@);
        match Sfx::parse_checked(ls[k].as_slice()) {
            None => {
                return None;
            },
            Some(Err(e)) => {
                return Some(Err(e));
            },
            Some(Ok(x)) => {
                let ghost m = spec_parse_sfx(views[k as int])->Some_0->Ok_0;
                proof {
                    match sfx_lines(views, k + 1) {
                        Some(Ok(rest)) => {
                            assert(models + (seq![m] + rest) =~= models.push(m) + rest);
                        },
                        _ => {},
                    }
                    models = models.push(m);
                }
                out.push(x);
                k = k + 1;
            },
        }
    }
    assert(models + seq![] =~= models);
    Some(Ok(out))
}

/// Does `g` hold the image that `m` describes?
pub open spec fn gfx_matches(g: Option<Gfx<4>>, m: Option<GfxModel>) -> bool {
    match (g, m) {
        (None, None) => true,
        (Some(g), Some(m)) => g.width == m.width && g.height == m.height && g.pixels()
            == lsb0_bits(m.bytes),
        _ => false,
    }
}

/// Does `c` hold the cartridge that `m` describes?
pub open spec fn cart_matches(c: Cart, m: CartModel) -> bool {
    &&& c.lua@ == m.lua
    &&& gfx_matches(c.gfx, m.gfx)
    &&& c.map@ == m.map
    &&& c.flags@ == m.flags
    &&& sfxs_match(c.sfx@, m.sfx)
    &&& c.music@.len() == m.music.len()
    &&& forall|i: int| 0 <= i < m.music.len() ==> music_matches(#[trigger] c.music@[i], m.music[i])
}

/// Does a result of parsing agree with the outcome `o`?
pub open spec fn cart_outcome_matches(r: Option<Result<Cart, CartLoaderError>>, o: CartOutcome) -> bool {
    match o {
        None => r is None,
        Some(Ok(m)) => r matches Some(Ok(c)) && cart_matches(c, m),
        Some(Err(f)) => r matches Some(Err(e)) && e@ == f,
    }
}

/// The error of a byte that is no hex digit.
fn hex_error(c: u8) -> (r: CartLoaderError)
    ensures
        r@ == hex_fault(c),
{
    CartLoaderError::UnexpectedHex(c as char)
}

impl Cart {
    /// Parse the text of a `.p8` cartridge, or `None` where the text is
    /// outside the format (see [`spec_parse_cart`]).
    pub fn parse(content: &str) -> (r: Option<Result<Cart, CartLoaderError>>)
        requires
            content.spec_bytes().len() + 8 <= usize::MAX,
        ensures
            cart_outcome_matches(r, spec_parse_cart(content.spec_bytes())),
    {
        let ghost s = content.spec_bytes();
        let bytes = content.as_bytes();
        let secs = match scan_sections(bytes) {
            ScanEnd::BadHeader(a, b) => {
                if a <= b && content.is_char_boundary(a) && content.is_char_boundary(b) {
                    let header = slice_string(content, a, b);
                    return Some(Err(CartLoaderError::UnexpectedHeader(header)));
                } else {
                    return None;
                }
            },
            ScanEnd::Done(v) => v,
        };
        let ghost sv = secs_view(secs@);
        assert(sv[0] == (opt_int(secs@[0].0), opt_int(secs@[0].1)));
        assert(sv[1] == (opt_int(secs@[1].0), opt_int(secs@[1].1)));
        assert(sv[3] == (opt_int(secs@[3].0), opt_int(secs@[3].1)));
        assert(sv[4] == (opt_int(secs@[4].0), opt_int(secs@[4].1)));
        assert(sv[5] == (opt_int(secs@[5].0), opt_int(secs@[5].1)));
        assert(sv[6] == (opt_int(secs@[6].0), opt_int(secs@[6].1)));
        let lua = match secs[0] {
            (Some(a), Some(b)) => {
                if a <= b && content.is_char_boundary(a) && content.is_char_boundary(b) {
                    slice_string(content, a, b)
                } else {
                    return None;
                }
            },
            _ => String::new(),
        };
        let gfx = match section_text(content, secs[1]) {
            None => {
                return None;
            },
            Some(None) => None,
            Some(Some(seg)) => {
                match gfx_section(&seg) {
                    None => {
                        return None;
                    },
                    Some(Err(c)) => {
                        return Some(Err(hex_error(c)));
                    },
                    Some(Ok(g)) => g,
                }
            },
        };
        let flags = match section_text(content, secs[3]) {
            None => {
                return None;
            },
            Some(None) => Vec::new(),
            Some(Some(seg)) => {
                match bytes_section(&seg) {
                    None => {
                        return None;
                    },
                    Some(Err(c)) => {
                        return Some(Err(hex_error(c)));
                    },
                    Some(Ok(v)) => v,
                }
            },
        };
        let map = match section_text(content, secs[4]) {
            None => {
                return None;
            },
            Some(None) => Vec::new(),
            Some(Some(seg)) => {
                match bytes_section(&seg) {
                    None => {
                        return None;
                    },
                    Some(Err(c)) => {
                        return Some(Err(hex_error(c)));
                    },
                    Some(Ok(v)) => v,
                }
            },
        };
        let music = match section_text(content, secs[6]) {
            None => {
                return None;
            },
            Some(None) => Vec::new(),
            Some(Some(seg)) => {
                match music_section(&seg) {
                    None => {
                        return None;
                    },
                    Some(Err(c)) => {
                        return Some(Err(hex_error(c)));
                    },
                    Some(Ok(v)) => v,
                }
            },
        };
        let sfx = match section_text(content, secs[5]) {
            None => {
                return None;
            },
            Some(None) => Vec::new(),
            Some(Some(seg)) => {
                match sfx_section(&seg) {
                    None => {
                        return None;
                    },
                    Some(Err(e)) => {
                        return Some(Err(CartLoaderError::Sfx(e)));
                    },
                    Some(Ok(v)) => v,
                }
            },
        };
        Some(Ok(Cart { lua, gfx, map, flags, sfx, music }))
    }
}

/// Settings of the cartridge loader: the palette colours that are transparent,
/// one bit per colour.
#[derive(Debug, Clone, Copy, PartialEq, Eq, Structural)]
pub struct CartLoaderSettings {
    pub palette_transparency: u16,
}

impl Default for CartLoaderSettings {
    /// Black, colour 0, is transparent; no other colour is.
    fn default() -> (r: CartLoaderSettings)
        ensures
            r.palette_transparency == 1,
    {
        CartLoaderSettings { palette_transparency: 0b0000_0000_0000_0001 }
    }
}

impl CartLoaderSettings {
    /// Is the palette colour `palette_index` transparent?
    pub fn is_transparent(&self, palette_index: usize) -> (r: bool)
        requires
            palette_index < 16,
        ensures
            r == ((self.palette_transparency >> (palette_index as u16)) & 1u16 == 1u16),
    {
        let t = self.palette_transparency;
        let i = palette_index as u16;
        assert(((1u16 << i) & t != 0u16) == ((t >> i) & 1u16 == 1u16)) by (bit_vector)
            requires
                i < 16,
        ;
        ((1u16 << i) & t) != 0
    }
}

impl Cart {
    /// Parse the text of a `.p8` cartridge that lies within the format; the
    /// settings play no part.
    pub fn from_str(content: &str, _settings: &CartLoaderSettings) -> (r: Result<Cart, CartLoaderError>)
        requires
            content.spec_bytes().len() + 8 <= usize::MAX,
            spec_parse_cart(content.spec_bytes()) is Some,
        ensures
            match spec_parse_cart(content.spec_bytes()) {
                Some(Ok(m)) => r matches Ok(c) && cart_matches(c, m),
                Some(Err(f)) => r matches Err(e) && e@ == f,
                None => false,
            },
    {
        match Cart::parse(content) {
            Some(r) => r,
            None => Err(CartLoaderError::Missing(String::new())),
        }
    }

    /// Parse the bytes of a `.p8` file: an error where they are no UTF-8,
    /// else as [`Cart::parse`] does.
    pub fn from_bytes(bytes: Vec<u8>) -> (r: Option<Result<Cart, CartLoaderError>>)
        requires
            bytes@.len() + 8 <= usize::MAX,
        ensures
            !valid_utf8(bytes@) ==> (r matches Some(Err(e)) && e@ == CartFault::Utf8),
            valid_utf8(bytes@) ==> cart_outcome_matches(r, spec_parse_cart(bytes@)),
    {
        let ghost b = bytes@;
        match string_from_utf8(bytes) {
            Err(e) => Some(Err(CartLoaderError::Utf8(e))),
            Ok(content) => {
                proof {
                    vstd::utf8::decode_utf8_encode_utf8(b);
                }
                Cart::parse(content.as_str())
            },
        }
    }
}

/// Names what `pico8_decompress::extract_bits_from_png` reads from the bytes of
/// a PNG file: `None` where they do not decode.
pub uninterp spec fn png_payload(png: Seq<u8>) -> Option<Seq<u8>>;

/// A big-endian 32-bit number at `i`.
pub open spec fn be32(s: Seq<u8>, i: int) -> int {
    s[i] * 0x1000000 + s[i + 1] * 0x10000 + s[i + 2] * 0x100 + s[i + 3]
}

/// Does the frame that the PNG header declares fit in memory as eight bytes
/// per pixel (the most a pixel takes), its width and height counted in
/// `isize`? The header chunk follows the eight byte signature: its length,
/// `IHDR`, then the width and the height. Bytes too few to hold them are no
/// PNG file.
pub open spec fn png_frame_fits(png: Seq<u8>) -> bool {
    png.len() < 24 || frame_fits(be32(png, 16), be32(png, 20))
}

/// Do `width` by `height` pixels of eight bytes fit in `isize`, and each row?
pub open spec fn frame_fits(width: int, height: int) -> bool {
    &&& width * 8 <= isize::MAX
    &&& height * 8 <= isize::MAX
    &&& width * height * 8 <= isize::MAX
}

/// Do `w` by `h` pixels of eight bytes fit in `isize`?
fn frame_fits_check(w: u64, h: u64) -> (r: bool)
    requires
        w < 0x1_0000_0000,
        h < 0x1_0000_0000,
    ensures
        r == frame_fits(w as int, h as int),
{
    let lim: u64 = (isize::MAX as u64) / 8;
    if w > lim || h > lim {
        return false;
    }
    if w == 0 {
        return true;
    }
    let q = lim / w;
    proof {
        assert(h <= q <==> w * h <= lim) by (nonlinear_arith)
            requires
                w > 0,
                q == lim / w,
        ;
    }
    h <= q
}

/// Calls `pico8_decompress::extract_bits_from_png` on the bytes of a PNG file:
/// the two low bits of each colour channel, four to a byte. The result is a
/// function of the bytes, named [`png_payload`]. The function allocates the
/// whole frame that the header declares, computing its size in `usize`
/// (png-0.17.16 `Reader::output_buffer_size`, at most eight bytes a pixel):
/// a size past `isize::MAX` overflows or cannot be allocated, so the call is
/// made only for frames that fit there. Whether the machine has the memory
/// for a frame that fits is not a property of the bytes; where it has not,
/// the allocation aborts. What the `png` decoder does with malformed chunks
/// is taken from its documentation: it reports them as a `DecodingError`,
/// which becomes an `io::Error`.
#[verifier::external_body]
fn extract_png_bits(png: &[u8]) -> (r: Result<Vec<u8>, std::io::Error>)
    requires
        png_frame_fits(png@),
    ensures
        r is Ok <==> png_payload(png@) is Some,
        r matches Ok(v) ==> png_payload(png@) == Some(v@),
{
    pico8_decompress::extract_bits_from_png(png)
}

/// Does `pico8_decompress::decompress` know the compression of `src` by its
/// header? It reads the first four bytes, and panics on the legacy kind.
pub open spec fn known_compression(src: Seq<u8>) -> bool {
    &&& src.len() >= 4
    &&& (src[0] == 0 || src[1] == 112 || src[2] == 120 || src[3] == 97 || src[0] == 58 || src[1]
        == 99 || src[2] == 58 || src[3] == 0)
}

/// Names what `pico8_decompress::decompress` makes of compressed code with no
/// length limit: `None` where it reports an error.
pub uninterp spec fn decompressed(src: Seq<u8>) -> Option<Seq<u8>>;

/// Calls `pico8_decompress::decompress(src, None)`, which decompresses code in
/// either of the two compressed formats. The result is a function of the
/// bytes, named [`decompressed`]. The crate's decoders index their buffers
/// directly; [`code_in_bounds`] follows their reads, block copies and lengths
/// (pxa.rs and p8.rs of the crate), and the call is made only where they
/// stay within bounds.
#[verifier::external_body]
fn decompress_code(src: &[u8]) -> (r: Result<Vec<u8>, DecompressError>)
    requires
        known_compression(src@),
        code_in_bounds(src@),
    ensures
        r is Ok <==> decompressed(src@) is Some,
        r matches Ok(v) ==> decompressed(src@) == Some(v@),
{
    pico8_decompress::decompress(src, None)
}

/// The compressed code of a cartridge image.
pub open spec fn code_bytes(v: Seq<u8>) -> Seq<u8> {
    v.subrange(0x4300, 0x8000)
}

/// The sound effects of a cartridge image: 64 of 68 bytes each from 0x3200.
pub open spec fn png_sfx(v: Seq<u8>) -> Seq<SfxModel> {
    Seq::new(64, |k: int| sfx_from_bytes(v.subrange(0x3200 + 68 * k, 0x3200 + 68 * k + 68)))
}

/// Does `c` hold the cartridge that the image bytes `v` describe, with `code`
/// as its code?
pub open spec fn png_cart_matches(c: Cart, v: Seq<u8>, code: Seq<u8>) -> bool {
    &&& c.lua@ == p8scii_to_text(code)
    &&& gfx_matches(c.gfx, Some(GfxModel { bytes: v.subrange(0, 0x2000), width: 128, height: 128 }))
    &&& c.map@ == v.subrange(0x2000, 0x3000)
    &&& c.flags@ == v.subrange(0x3000, 0x3100)
    &&& sfxs_match(c.sfx@, png_sfx(v))
    &&& c.music@.len() == 0
}

impl Cart {
    /// The cartridge held by the bytes read from a cartridge image: sprites
    /// at 0, the map at 0x2000, sprite flags at 0x3000, sound effects at
    /// 0x3200 and compressed code at 0x4300.
    pub fn from_png_bits(v: &[u8]) -> (r: Result<Cart, CartLoaderError>)
        requires
            v@.len() >= 0x8000,
            known_compression(code_bytes(v@)),
            code_in_bounds(code_bytes(v@)),
        ensures
            match decompressed(code_bytes(v@)) {
                None => r matches Err(e) && e@ is Decompression,
                Some(code) => r matches Ok(c) && png_cart_matches(c, v@, code),
            },
    {
        let code_src = copy_range(v, 0x4300, 0x8000);
        let code = match decompress_code(code_src.as_slice()) {
            Ok(code) => code,
            Err(e) => {
                return Err(CartLoaderError::Decompression(e.to_string()));
            },
        };
        let lua = vec_to_utf8(code);
        let nybbles = copy_range(v, 0, 0x2000);
        let ghost m: usize = usize::MAX;
        assert(m >= 0xffff_ffffusize);
        assert(0x10000usize <= (m >> 3usize)) by (bit_vector)
            requires
                m >= 0xffff_ffffusize,
        ;
        let gfx = Gfx::<4>::from_vec(128, 128, nybbles);
        let map = copy_range(v, 0x2000, 0x3000);
        let flags = copy_range(v, 0x3000, 0x3100);
        let mut sfx: Vec<Sfx> = Vec::new();
        let mut k: usize = 0;
        while k < 64
            invariant
                v@.len() >= 0x8000,
                k <= 64,
                sfx@.len() == k,
                forall|j: int| 0 <= j < k ==> sfx_matches(#[trigger] sfx@[j], png_sfx(v@)[j]),
            decreases 64 - k,
        {
            let start = 0x3200 + 68 * k;
            let chunk = copy_range(v, start, start + 68);
            sfx.push(Sfx::from_u8(chunk.as_slice()));
            k = k + 1;
        }
        Ok(Cart { lua, gfx: Some(gfx), map, flags, sfx, music: Vec::new() })
    }

    /// Load a cartridge image from the bytes of a PNG file, or `None` where
    /// its payload is shorter than a cartridge or its code is in the legacy
    /// format, which the decompressor does not handle. Compressed code that
    /// would take the decompressor out of its buffers is reported as a
    /// decompression error, and a PNG frame too large to hold in memory as an
    /// unexpected header.
    pub fn from_png(png: &[u8]) -> (r: Option<Result<Cart, CartLoaderError>>)
        ensures
            !png_frame_fits(png@) ==> (r matches Some(Err(e)) && e@ == CartFault::UnexpectedHeader(
                "PNG frame too large to hold"@,
            )),
            png_frame_fits(png@) ==> match png_payload(png@) {
                None => r matches Some(Err(e)) && e@ is Io,
                Some(v) => if v.len() >= 0x8000 && known_compression(code_bytes(v)) {
                    if !code_in_bounds(code_bytes(v)) {
                        r matches Some(Err(e)) && e@ == CartFault::Decompression(
                            "compressed code runs out of bounds"@,
                        )
                    } else {
                        match decompressed(code_bytes(v)) {
                            None => r matches Some(Err(e)) && e@ is Decompression,
                            Some(code) => r matches Some(Ok(c)) && png_cart_matches(c, v, code),
                        }
                    }
                } else {
                    r is None
                },
            },
    {
        if png.len() >= 24 {
            let w: u32 = (png[16] as u32) * 0x1000000 + (png[17] as u32) * 0x10000 + (png[18] as u32) * 0x100
                + (png[19] as u32);
            let h: u32 = (png[20] as u32) * 0x1000000 + (png[21] as u32) * 0x10000 + (png[22] as u32) * 0x100
                + (png[23] as u32);
            if !frame_fits_check(w as u64, h as u64) {
                proof {
                    reveal_strlit("PNG frame too large to hold");
                }
                return Some(
                    Err(CartLoaderError::UnexpectedHeader(String::from_str("PNG frame too large to hold"))),
                );
            }
        }
        let v = match extract_png_bits(png) {
            Ok(v) => v,
            Err(e) => {
                return Some(Err(CartLoaderError::Io(e)));
            },
        };
        if v.len() < 0x8000 {
            return None;
        }
        let known = v[0x4300] == 0 || v[0x4301] == 112 || v[0x4302] == 120 || v[0x4303] == 97
            || v[0x4300] == 58 || v[0x4301] == 99 || v[0x4302] == 58 || v[0x4303] == 0;
        if !known {
            return None;
        }
        let code = copy_range(v.as_slice(), 0x4300, 0x8000);
        if !code_check(code.as_slice()) {
            proof {
                reveal_strlit("compressed code runs out of bounds");
            }
            return Some(Err(CartLoaderError::Decompression(String::from_str("compressed code runs out of bounds"))));
        }
        Some(Cart::from_png_bits(v.as_slice()))
    }
}

/// Names what `pico8_to_lua::patch_lua` makes of Pico-8 Lua: `Some` holding
/// plain Lua where it rewrote the text, `None` where it handed the text back
/// unchanged or could not parse it.
pub uninterp spec fn lua_patch(lua: Seq<char>) -> Option<Seq<char>>;

/// Calls `pico8_to_lua::patch_lua`, which rewrites the Pico-8 dialect of Lua
/// into plain Lua. The result is a function of the text, named [`lua_patch`].
#[verifier::external_body]
fn patch_lua_text(lua: &str) -> (r: Option<String>)
    ensures
        match r {
            Some(s) => lua_patch(lua@) == Some(s@),
            None => lua_patch(lua@) is None,
        },
{
    match pico8_to_lua::patch_lua(lua) {
        Ok(std::borrow::Cow::Owned(s)) => Some(s),
        Ok(std::borrow::Cow::Borrowed(_)) => None,
        Err(_) => None,
    }
}

/// Names the paths of the `#include` lines that `pico8_to_lua::find_includes`
/// finds in Pico-8 Lua, in order.
pub uninterp spec fn lua_includes(lua: Seq<char>) -> Seq<Seq<char>>;

/// Calls `pico8_to_lua::find_includes`: the paths of the `#include` lines of
/// the text, in order. The result is a function of the text, named
/// [`lua_includes`].
#[verifier::external_body]
fn include_paths(lua: &str) -> (r: Vec<String>)
    ensures
        r@.len() == lua_includes(lua@).len(),
        forall|i: int| 0 <= i < r@.len() ==> #[trigger] r@[i]@ == lua_includes(lua@)[i],
{
    pico8_to_lua::find_includes(lua).map(|p| p.to_string()).collect()
}

/// The files that Pico-8 Lua includes.
pub fn lua_include_paths(lua: &str) -> (r: Vec<String>)
    ensures
        r@.len() == lua_includes(lua@).len(),
        forall|i: int| 0 <= i < r@.len() ==> #[trigger] r@[i]@ == lua_includes(lua@)[i],
{
    include_paths(lua)
}

/// The code of a cartridge image made plain Lua: `None` where the code
/// includes files, which the code of an image cannot; else the rewritten code
/// where the dialect needed rewriting, and `Some(None)` where it did not.
pub fn patch_png_lua(code: &str) -> (r: Option<Option<String>>)
    ensures
        lua_includes(code@).len() > 0 ==> r is None,
        lua_includes(code@).len() == 0 ==> match lua_patch(code@) {
            Some(p) => r matches Some(Some(s)) && s@ == p,
            None => r == Some(None::<String>),
        },
{
    let paths = include_paths(code);
    if paths.len() > 0 {
        return None;
    }
    Some(patch_lua_text(code))
}

/// Do two texts hold the same characters? Compared byte by byte.
fn same_text(a: &str, b: &str) -> (r: bool)
    ensures
        r == (a@ == b@),
{
    let x = a.as_bytes();
    let y = b.as_bytes();
    proof {
        vstd::utf8::encode_utf8_decode_utf8(a@);
        vstd::utf8::encode_utf8_decode_utf8(b@);
    }
    if x.len() != y.len() {
        return false;
    }
    let mut k: usize = 0;
    while k < x.len()
        invariant
            x@ == a.spec_bytes(),
            y@ == b.spec_bytes(),
            x@.len() == y@.len(),
            k <= x@.len(),
            forall|j: int| 0 <= j < k ==> x@[j] == y@[j],
        decreases x@.len() - k,
    {
        if x[k] != y[k] {
            return false;
        }
        k = k + 1;
    }
    assert(x@ =~= y@);
    true
}

/// The texts of the characters of strings.
pub open spec fn texts_of(v: Seq<String>) -> Seq<Seq<char>> {
    Seq::new(v.len(), |i: int| v[i]@)
}

/// The text that goes where `path` is included: the text of the first entry
/// of `paths` that names it, and nothing where none does.
pub open spec fn include_for(paths: Seq<Seq<char>>, texts: Seq<Seq<char>>, path: Seq<char>, k: int) -> Seq<char>
    decreases paths.len() - k,
{
    if k < 0 || k >= paths.len() || k >= texts.len() {
        seq![]
    } else if paths[k] == path {
        texts[k]
    } else {
        include_for(paths, texts, path, k + 1)
    }
}

/// The text to include for `path`, looked up in the loaded files.
pub fn include_text(paths: &Vec<String>, texts: &Vec<String>, path: &str) -> (r: String)
    ensures
        r@ == include_for(texts_of(paths@), texts_of(texts@), path@, 0),
{
    let n = if paths.len() < texts.len() {
        paths.len()
    } else {
        texts.len()
    };
    let mut k: usize = 0;
    while k < n
        invariant
            n <= paths@.len(),
            n <= texts@.len(),
            n == paths@.len() || n == texts@.len(),
            k <= n,
            include_for(texts_of(paths@), texts_of(texts@), path@, 0) == include_for(
                texts_of(paths@),
                texts_of(texts@),
                path@,
                k as int,
            ),
        decreases n - k,
    {
        if same_text(paths[k].as_str(), path) {
            return texts[k].clone();
        }
        k = k + 1;
    }
    String::new()
}

/// Names what `pico8_to_lua::patch_includes` makes of Pico-8 Lua when each
/// `#include` line is given the text that [`include_for`] finds for its path.
pub uninterp spec fn includes_resolved(lua: Seq<char>, paths: Seq<Seq<char>>, texts: Seq<Seq<char>>) -> Seq<char>;

/// Calls `pico8_to_lua::patch_includes`, which puts in place of each
/// `#include` line the text that its resolver returns; the resolver here is
/// [`include_text`]. The result is a function of the text and the loaded
/// files, named [`includes_resolved`].
#[verifier::external_body]
fn replace_includes(lua: &str, paths: &Vec<String>, texts: &Vec<String>) -> (r: String)
    ensures
        r@ == includes_resolved(lua@, texts_of(paths@), texts_of(texts@)),
{
    pico8_to_lua::patch_includes(lua, |path| std::borrow::Cow::Owned(include_text(paths, texts, path))).into_owned()
}

/// The code of a `.p8` cartridge made plain Lua: its includes (the files
/// `paths`, holding `texts`) put in place, then the dialect rewritten where it
/// needs it. Code without includes that needs no rewriting stays as it is.
pub fn finish_p8_lua(lua: String, paths: &Vec<String>, texts: &Vec<String>) -> (r: String)
    ensures
        ({
            let resolved = includes_resolved(lua@, texts_of(paths@), texts_of(texts@));
            match lua_patch(resolved) {
                Some(p) => r@ == p,
                None => r@ == if paths@.len() > 0 {
                    resolved
                } else {
                    lua@
                },
            }
        }),
{
    let has_includes = paths.len() > 0;
    let resolved = replace_includes(lua.as_str(), paths, texts);
    match patch_lua_text(resolved.as_str()) {
        Some(p) => p,
        None => if has_includes {
            resolved
        } else {
            lua
        },
    }
}

/// The three flags of a music line are the three lowest bits of its lead
/// byte, each on its own: `begin` is whether the byte is odd, `end` whether
/// its half is, and `stop` whether its quarter is.
pub proof fn lemma_music_flags_are_lead_bits(line: Seq<u8>, columns: int)
    requires
        music_line(line, columns) is Some,
        music_line(line, columns)->0 is Ok,
    ensures
        ({
            let lead = hex_value(line[0])->0 * 16 + hex_value(line[1])->0;
            let m = music_line(line, columns)->0->Ok_0;
            &&& m.begin == (lead % 2 == 1)
            &&& m.end == ((lead / 2) % 2 == 1)
            &&& m.stop == ((lead / 4) % 2 == 1)
        }),
{
    let lead = (hex_value(line[0])->0 * 16 + hex_value(line[1])->0) as u8;
    assert(((lead & 1u8) != 0) == (lead % 2 == 1)) by (bit_vector);
    assert(((lead & 2u8) != 0) == ((lead / 2) % 2 == 1)) by (bit_vector);
    assert(((lead & 4u8) != 0) == ((lead / 4) % 2 == 1)) by (bit_vector);
}

} // verus!
