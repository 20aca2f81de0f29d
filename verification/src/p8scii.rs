//! P8SCII, the character set of the fantasy console, and its UTF-8 rendering.

use vstd::prelude::*;
use vstd::string::StringExecFns;
use crate::text::char_of_byte;

verus! {

/// The text that stands for a P8SCII character, where the table has one:
/// control codes stand for themselves, the rest for their glyphs.
pub open spec fn p8scii_glyph(c: u8) -> Option<Seq<char>> {
    match c {
        0 => Some(seq!['\u{0}']),  // Terminate printing
        1 => Some(seq!['\u{1}']),  // Repeat next character P0 times
        2 => Some(seq!['\u{2}']),  // Draw solid background with color P0
        3 => Some(seq!['\u{3}']),  // Move cursor horizontally by P0-16 pixels
        4 => Some(seq!['\u{4}']),  // Move cursor vertically by P0-16 pixels
        5 => Some(seq!['\u{5}']),  // Move cursor by P0-16, P1-16 pixels
        6 => Some(seq!['\u{6}']),  // Special command
        7 => Some(seq!['\u{7}']),  // Audio command
        8 => Some(seq!['\u{8}']),  // Backspace
        9 => Some(seq!['\u{9}']),  // Tab
        10 => Some(seq!['\u{a}']),  // Newline
        11 => Some(seq!['\u{b}']),  // Decorate previous character command
        12 => Some(seq!['\u{c}']),  // Set foreground to color P0
        13 => Some(seq!['\u{d}']),  // Carriage return
        14 => Some(seq!['\u{e}']),  // Switch font defined at 0x5600
        15 => Some(seq!['\u{f}']),  // Switch font to default
        16 => Some(seq!['\u{25ae}']),  // Vertical rectangle
        17 => Some(seq!['\u{25a0}']),  // Filled square
        18 => Some(seq!['\u{25a1}']),  // Hollow square
        19 => Some(seq!['\u{2059}']),  // Five dot
        20 => Some(seq!['\u{2058}']),  // Four dot
        21 => Some(seq!['\u{2016}']),  // Pause
        22 => Some(seq!['\u{25c0}']),  // Back
        23 => Some(seq!['\u{25b6}']),  // Forward
        24 => Some(seq!['\u{300c}']),  // Japanese starting quote
        25 => Some(seq!['\u{300d}']),  // Japanese ending quote
        26 => Some(seq!['\u{a5}']),  // Yen sign
        27 => Some(seq!['\u{2022}']),  // Interpunct
        28 => Some(seq!['\u{3001}']),  // Japanese comma
        29 => Some(seq!['\u{3002}']),  // Japanese full stop
        30 => Some(seq!['\u{309b}']),  // Japanese dakuten
        31 => Some(seq!['\u{309c}']),  // Japanese handakuten
        127 => Some(seq!['\u{25cb}']),  // Hollow circle
        128 => Some(seq!['\u{2588}']),  // Rectangle
        129 => Some(seq!['\u{2592}']),  // Checkerboard
        130 => Some(seq!['\u{1f431}']),  // Jelpi
        131 => Some(seq!['\u{2b07}', '\u{fe0f}']),  // Down key
        132 => Some(seq!['\u{2591}']),  // Dot pattern
        133 => Some(seq!['\u{273d}']),  // Throwing star
        134 => Some(seq!['\u{25cf}']),  // Ball
        135 => Some(seq!['\u{2665}']),  // Heart
        136 => Some(seq!['\u{2609}']),  // Eye
        137 => Some(seq!['\u{c6c3}']),  // Man
        138 => Some(seq!['\u{2302}']),  // House
        139 => Some(seq!['\u{2b05}', '\u{fe0f}']),  // Left key
        140 => Some(seq!['\u{1f610}']),  // Face
        141 => Some(seq!['\u{266a}']),  // Musical note
        142 => Some(seq!['\u{1f17e}', '\u{fe0f}']),  // O key
        143 => Some(seq!['\u{25c6}']),  // Diamond
        144 => Some(seq!['\u{2026}']),  // Ellipsis
        145 => Some(seq!['\u{27a1}', '\u{fe0f}']),  // Right key
        146 => Some(seq!['\u{2605}']),  // Five-pointed star
        147 => Some(seq!['\u{29d7}']),  // Hourglass
        148 => Some(seq!['\u{2b06}', '\u{fe0f}']),  // Up key
        149 => Some(seq!['\u{2c7}']),  // Birds
        150 => Some(seq!['\u{2227}']),  // Sawtooth
        151 => Some(seq!['\u{274e}']),  // X key
        152 => Some(seq!['\u{25a4}']),  // Horiz lines
        153 => Some(seq!['\u{25a5}']),  // Vert lines
        154 => Some(seq!['\u{3042}']),  // Hiragana: a
        155 => Some(seq!['\u{3044}']),  // i
        156 => Some(seq!['\u{3046}']),  // u
        157 => Some(seq!['\u{3048}']),  // e
        158 => Some(seq!['\u{304a}']),  // o
        159 => Some(seq!['\u{304b}']),  // ka
        160 => Some(seq!['\u{304d}']),  // ki
        161 => Some(seq!['\u{304f}']),  // ku
        162 => Some(seq!['\u{3051}']),  // ke
        163 => Some(seq!['\u{3053}']),  // ko
        164 => Some(seq!['\u{3055}']),  // sa
        165 => Some(seq!['\u{3057}']),  // si
        166 => Some(seq!['\u{3059}']),  // su
        167 => Some(seq!['\u{305b}']),  // se
        168 => Some(seq!['\u{305d}']),  // so
        169 => Some(seq!['\u{305f}']),  // ta
        170 => Some(seq!['\u{3061}']),  // chi
        171 => Some(seq!['\u{3064}']),  // tsu
        172 => Some(seq!['\u{3066}']),  // te
        173 => Some(seq!['\u{3068}']),  // to
        174 => Some(seq!['\u{306a}']),  // na
        175 => Some(seq!['\u{306b}']),  // ni
        176 => Some(seq!['\u{306c}']),  // nu
        177 => Some(seq!['\u{306d}']),  // ne
        178 => Some(seq!['\u{306e}']),  // no
        179 => Some(seq!['\u{306f}']),  // ha
        180 => Some(seq!['\u{3072}']),  // hi
        181 => Some(seq!['\u{3075}']),  // phu
        182 => Some(seq!['\u{3078}']),  // he
        183 => Some(seq!['\u{307b}']),  // ho
        184 => Some(seq!['\u{307e}']),  // ma
        185 => Some(seq!['\u{307f}']),  // mi
        186 => Some(seq!['\u{3080}']),  // mu
        187 => Some(seq!['\u{3081}']),  // me
        188 => Some(seq!['\u{3082}']),  // mo
        189 => Some(seq!['\u{3084}']),  // ya
        190 => Some(seq!['\u{3086}']),  // yu
        191 => Some(seq!['\u{3088}']),  // yo
        192 => Some(seq!['\u{3089}']),  // ra
        193 => Some(seq!['\u{308a}']),  // ri
        194 => Some(seq!['\u{308b}']),  // ru
        195 => Some(seq!['\u{308c}']),  // re
        196 => Some(seq!['\u{308d}']),  // ro
        197 => Some(seq!['\u{308f}']),  // wa
        198 => Some(seq!['\u{3092}']),  // wo
        199 => Some(seq!['\u{3093}']),  // n
        200 => Some(seq!['\u{3063}']),  // Hiragana sokuon
        201 => Some(seq!['\u{3083}']),  // Hiragana digraphs: ya
        202 => Some(seq!['\u{3085}']),  // yu
        203 => Some(seq!['\u{3087}']),  // yo
        204 => Some(seq!['\u{30a2}']),  // Katakana: a
        205 => Some(seq!['\u{30a4}']),  // i
        206 => Some(seq!['\u{30a6}']),  // u
        207 => Some(seq!['\u{30a8}']),  // e
        208 => Some(seq!['\u{30aa}']),  // o
        209 => Some(seq!['\u{30ab}']),  // ka
        210 => Some(seq!['\u{30ad}']),  // ki
        211 => Some(seq!['\u{30af}']),  // ku
        212 => Some(seq!['\u{30b1}']),  // ke
        213 => Some(seq!['\u{30b3}']),  // ko
        214 => Some(seq!['\u{30b5}']),  // sa
        215 => Some(seq!['\u{30b7}']),  // si
        216 => Some(seq!['\u{30b9}']),  // su
        217 => Some(seq!['\u{30bb}']),  // se
        218 => Some(seq!['\u{30bd}']),  // so
        219 => Some(seq!['\u{30bf}']),  // ta
        220 => Some(seq!['\u{30c1}']),  // chi
        221 => Some(seq!['\u{30c4}']),  // tsu
        222 => Some(seq!['\u{30c6}']),  // te
        223 => Some(seq!['\u{30c8}']),  // to
        224 => Some(seq!['\u{30ca}']),  // na
        225 => Some(seq!['\u{30cb}']),  // ni
        226 => Some(seq!['\u{30cc}']),  // nu
        227 => Some(seq!['\u{30cd}']),  // ne
        228 => Some(seq!['\u{30ce}']),  // no
        229 => Some(seq!['\u{30cf}']),  // ha
        230 => Some(seq!['\u{30d2}']),  // hi
        231 => Some(seq!['\u{30d5}']),  // phu
        232 => Some(seq!['\u{30d8}']),  // he
        233 => Some(seq!['\u{30db}']),  // ho
        234 => Some(seq!['\u{30de}']),  // ma
        235 => Some(seq!['\u{30df}']),  // mi
        236 => Some(seq!['\u{30e0}']),  // mu
        237 => Some(seq!['\u{30e1}']),  // me
        238 => Some(seq!['\u{30e2}']),  // mo
        239 => Some(seq!['\u{30e4}']),  // ya
        240 => Some(seq!['\u{30e6}']),  // yu
        241 => Some(seq!['\u{30e8}']),  // yo
        242 => Some(seq!['\u{30e9}']),  // ra
        243 => Some(seq!['\u{30ea}']),  // ri
        244 => Some(seq!['\u{30eb}']),  // ru
        245 => Some(seq!['\u{30ec}']),  // re
        246 => Some(seq!['\u{30ed}']),  // ro
        247 => Some(seq!['\u{30ef}']),  // wa
        248 => Some(seq!['\u{30f2}']),  // wo
        249 => Some(seq!['\u{30f3}']),  // n
        250 => Some(seq!['\u{30c3}']),  // Katakana sokuon
        251 => Some(seq!['\u{30e3}']),  // Katakana digraphs: ya
        252 => Some(seq!['\u{30e5}']),  // yu
        253 => Some(seq!['\u{30e7}']),  // yo
        254 => Some(seq!['\u{25dc}']),  // Left arc
        255 => Some(seq!['\u{25dd}']),  // Right arc
        _ => None,
    }
}

/// The text that a P8SCII character renders as: its glyph, or else the
/// character with the same code.
pub open spec fn p8scii_text(c: u8) -> Seq<char> {
    match p8scii_glyph(c) {
        Some(g) => g,
        None => seq![c as char],
    }
}

/// The UTF-8 text of a sequence of P8SCII characters.
pub open spec fn p8scii_to_text(cs: Seq<u8>) -> Seq<char>
    decreases cs.len(),
{
    if cs.len() == 0 {
        seq![]
    } else {
        p8scii_to_text(cs.drop_last()) + p8scii_text(cs.last())
    }
}

/// The UTF-8 text of a P8SCII character, where it has a glyph.
pub fn char_to_utf8(p8char: u8) -> (r: Option<&'static str>)
    ensures
        match r {
            Some(s) => p8scii_glyph(p8char) == Some(s@),
            None => p8scii_glyph(p8char) is None,
        },
{
    match p8char {
        0 => {
            proof {
                reveal_strlit("\x00");
            }
            Some("\x00")
        },  // Terminate printing
        1 => {
            proof {
                reveal_strlit("\x01");
            }
            Some("\x01")
        },  // Repeat next character P0 times
        2 => {
            proof {
                reveal_strlit("\x02");
            }
            Some("\x02")
        },  // Draw solid background with color P0
        3 => {
            proof {
                reveal_strlit("\x03");
            }
            Some("\x03")
        },  // Move cursor horizontally by P0-16 pixels
        4 => {
            proof {
                reveal_strlit("\x04");
            }
            Some("\x04")
        },  // Move cursor vertically by P0-16 pixels
        5 => {
            proof {
                reveal_strlit("\x05");
            }
            Some("\x05")
        },  // Move cursor by P0-16, P1-16 pixels
        6 => {
            proof {
                reveal_strlit("\x06");
            }
            Some("\x06")
        },  // Special command
        7 => {
            proof {
                reveal_strlit("\x07");
            }
            Some("\x07")
        },  // Audio command
        8 => {
            proof {
                reveal_strlit("\x08");
            }
            Some("\x08")
        },  // Backspace
        9 => {
            proof {
                reveal_strlit("\x09");
            }
            Some("\x09")
        },  // Tab
        10 => {
            proof {
                reveal_strlit("\x0a");
            }
            Some("\x0a")
        },  // Newline
        11 => {
            proof {
                reveal_strlit("\x0b");
            }
            Some("\x0b")
        },  // Decorate previous character command
        12 => {
            proof {
                reveal_strlit("\x0c");
            }
            Some("\x0c")
        },  // Set foreground to color P0
        13 => {
            proof {
                reveal_strlit("\x0d");
            }
            Some("\x0d")
        },  // Carriage return
        14 => {
            proof {
                reveal_strlit("\x0e");
            }
            Some("\x0e")
        },  // Switch font defined at 0x5600
        15 => {
            proof {
                reveal_strlit("\x0f");
            }
            Some("\x0f")
        },  // Switch font to default
        16 => {
            proof {
                reveal_strlit("▮");
            }
            Some("▮")
        },  // Vertical rectangle
        17 => {
            proof {
                reveal_strlit("■");
            }
            Some("■")
        },  // Filled square
        18 => {
            proof {
                reveal_strlit("□");
            }
            Some("□")
        },  // Hollow square
        19 => {
            proof {
                reveal_strlit("⁙");
            }
            Some("⁙")
        },  // Five dot
        20 => {
            proof {
                reveal_strlit("⁘");
            }
            Some("⁘")
        },  // Four dot
        21 => {
            proof {
                reveal_strlit("‖");
            }
            Some("‖")
        },  // Pause
        22 => {
            proof {
                reveal_strlit("◀");
            }
            Some("◀")
        },  // Back
        23 => {
            proof {
                reveal_strlit("▶");
            }
            Some("▶")
        },  // Forward
        24 => {
            proof {
                reveal_strlit("「");
            }
            Some("「")
        },  // Japanese starting quote
        25 => {
            proof {
                reveal_strlit("」");
            }
            Some("」")
        },  // Japanese ending quote
        26 => {
            proof {
                reveal_strlit("¥");
            }
            Some("¥")
        },  // Yen sign
        27 => {
            proof {
                reveal_strlit("•");
            }
            Some("•")
        },  // Interpunct
        28 => {
            proof {
                reveal_strlit("、");
            }
            Some("、")
        },  // Japanese comma
        29 => {
            proof {
                reveal_strlit("。");
            }
            Some("。")
        },  // Japanese full stop
        30 => {
            proof {
                reveal_strlit("゛");
            }
            Some("゛")
        },  // Japanese dakuten
        31 => {
            proof {
                reveal_strlit("゜");
            }
            Some("゜")
        },  // Japanese handakuten
        127 => {
            proof {
                reveal_strlit("○");
            }
            Some("○")
        },  // Hollow circle
        128 => {
            proof {
                reveal_strlit("█");
            }
            Some("█")
        },  // Rectangle
        129 => {
            proof {
                reveal_strlit("▒");
            }
            Some("▒")
        },  // Checkerboard
        130 => {
            proof {
                reveal_strlit("🐱");
            }
            Some("🐱")
        },  // Jelpi
        131 => {
            proof {
                reveal_strlit("⬇️");
            }
            Some("⬇️")
        },  // Down key
        132 => {
            proof {
                reveal_strlit("░");
            }
            Some("░")
        },  // Dot pattern
        133 => {
            proof {
                reveal_strlit("✽");
            }
            Some("✽")
        },  // Throwing star
        134 => {
            proof {
                reveal_strlit("●");
            }
            Some("●")
        },  // Ball
        135 => {
            proof {
                reveal_strlit("♥");
            }
            Some("♥")
        },  // Heart
        136 => {
            proof {
                reveal_strlit("☉");
            }
            Some("☉")
        },  // Eye
        137 => {
            proof {
                reveal_strlit("웃");
            }
            Some("웃")
        },  // Man
        138 => {
            proof {
                reveal_strlit("⌂");
            }
            Some("⌂")
        },  // House
        139 => {
            proof {
                reveal_strlit("⬅️");
            }
            Some("⬅️")
        },  // Left key
        140 => {
            proof {
                reveal_strlit("😐");
            }
            Some("😐")
        },  // Face
        141 => {
            proof {
                reveal_strlit("♪");
            }
            Some("♪")
        },  // Musical note
        142 => {
            proof {
                reveal_strlit("🅾️");
            }
            Some("🅾️")
        },  // O key
        143 => {
            proof {
                reveal_strlit("◆");
            }
            Some("◆")
        },  // Diamond
        144 => {
            proof {
                reveal_strlit("…");
            }
            Some("…")
        },  // Ellipsis
        145 => {
            proof {
                reveal_strlit("➡️");
            }
            Some("➡️")
        },  // Right key
        146 => {
            proof {
                reveal_strlit("★");
            }
            Some("★")
        },  // Five-pointed star
        147 => {
            proof {
                reveal_strlit("⧗");
            }
            Some("⧗")
        },  // Hourglass
        148 => {
            proof {
                reveal_strlit("⬆️");
            }
            Some("⬆️")
        },  // Up key
        149 => {
            proof {
                reveal_strlit("ˇ");
            }
            Some("ˇ")
        },  // Birds
        150 => {
            proof {
                reveal_strlit("∧");
            }
            Some("∧")
        },  // Sawtooth
        151 => {
            proof {
                reveal_strlit("❎");
            }
            Some("❎")
        },  // X key
        152 => {
            proof {
                reveal_strlit("▤");
            }
            Some("▤")
        },  // Horiz lines
        153 => {
            proof {
                reveal_strlit("▥");
            }
            Some("▥")
        },  // Vert lines
        154 => {
            proof {
                reveal_strlit("あ");
            }
            Some("あ")
        },  // Hiragana: a
        155 => {
            proof {
                reveal_strlit("い");
            }
            Some("い")
        },  // i
        156 => {
            proof {
                reveal_strlit("う");
            }
            Some("う")
        },  // u
        157 => {
            proof {
                reveal_strlit("え");
            }
            Some("え")
        },  // e
        158 => {
            proof {
                reveal_strlit("お");
            }
            Some("お")
        },  // o
        159 => {
            proof {
                reveal_strlit("か");
            }
            Some("か")
        },  // ka
        160 => {
            proof {
                reveal_strlit("き");
            }
            Some("き")
        },  // ki
        161 => {
            proof {
                reveal_strlit("く");
            }
            Some("く")
        },  // ku
        162 => {
            proof {
                reveal_strlit("け");
            }
            Some("け")
        },  // ke
        163 => {
            proof {
                reveal_strlit("こ");
            }
            Some("こ")
        },  // ko
        164 => {
            proof {
                reveal_strlit("さ");
            }
            Some("さ")
        },  // sa
        165 => {
            proof {
                reveal_strlit("し");
            }
            Some("し")
        },  // si
        166 => {
            proof {
                reveal_strlit("す");
            }
            Some("す")
        },  // su
        167 => {
            proof {
                reveal_strlit("せ");
            }
            Some("せ")
        },  // se
        168 => {
            proof {
                reveal_strlit("そ");
            }
            Some("そ")
        },  // so
        169 => {
            proof {
                reveal_strlit("た");
            }
            Some("た")
        },  // ta
        170 => {
            proof {
                reveal_strlit("ち");
            }
            Some("ち")
        },  // chi
        171 => {
            proof {
                reveal_strlit("つ");
            }
            Some("つ")
        },  // tsu
        172 => {
            proof {
                reveal_strlit("て");
            }
            Some("て")
        },  // te
        173 => {
            proof {
                reveal_strlit("と");
            }
            Some("と")
        },  // to
        174 => {
            proof {
                reveal_strlit("な");
            }
            Some("な")
        },  // na
        175 => {
            proof {
                reveal_strlit("に");
            }
            Some("に")
        },  // ni
        176 => {
            proof {
                reveal_strlit("ぬ");
            }
            Some("ぬ")
        },  // nu
        177 => {
            proof {
                reveal_strlit("ね");
            }
            Some("ね")
        },  // ne
        178 => {
            proof {
                reveal_strlit("の");
            }
            Some("の")
        },  // no
        179 => {
            proof {
                reveal_strlit("は");
            }
            Some("は")
        },  // ha
        180 => {
            proof {
                reveal_strlit("ひ");
            }
            Some("ひ")
        },  // hi
        181 => {
            proof {
                reveal_strlit("ふ");
            }
            Some("ふ")
        },  // phu
        182 => {
            proof {
                reveal_strlit("へ");
            }
            Some("へ")
        },  // he
        183 => {
            proof {
                reveal_strlit("ほ");
            }
            Some("ほ")
        },  // ho
        184 => {
            proof {
                reveal_strlit("ま");
            }
            Some("ま")
        },  // ma
        185 => {
            proof {
                reveal_strlit("み");
            }
            Some("み")
        },  // mi
        186 => {
            proof {
                reveal_strlit("む");
            }
            Some("む")
        },  // mu
        187 => {
            proof {
                reveal_strlit("め");
            }
            Some("め")
        },  // me
        188 => {
            proof {
                reveal_strlit("も");
            }
            Some("も")
        },  // mo
        189 => {
            proof {
                reveal_strlit("や");
            }
            Some("や")
        },  // ya
        190 => {
            proof {
                reveal_strlit("ゆ");
            }
            Some("ゆ")
        },  // yu
        191 => {
            proof {
                reveal_strlit("よ");
            }
            Some("よ")
        },  // yo
        192 => {
            proof {
                reveal_strlit("ら");
            }
            Some("ら")
        },  // ra
        193 => {
            proof {
                reveal_strlit("り");
            }
            Some("り")
        },  // ri
        194 => {
            proof {
                reveal_strlit("る");
            }
            Some("る")
        },  // ru
        195 => {
            proof {
                reveal_strlit("れ");
            }
            Some("れ")
        },  // re
        196 => {
            proof {
                reveal_strlit("ろ");
            }
            Some("ろ")
        },  // ro
        197 => {
            proof {
                reveal_strlit("わ");
            }
            Some("わ")
        },  // wa
        198 => {
            proof {
                reveal_strlit("を");
            }
            Some("を")
        },  // wo
        199 => {
            proof {
                reveal_strlit("ん");
            }
            Some("ん")
        },  // n
        200 => {
            proof {
                reveal_strlit("っ");
            }
            Some("っ")
        },  // Hiragana sokuon
        201 => {
            proof {
                reveal_strlit("ゃ");
            }
            Some("ゃ")
        },  // Hiragana digraphs: ya
        202 => {
            proof {
                reveal_strlit("ゅ");
            }
            Some("ゅ")
        },  // yu
        203 => {
            proof {
                reveal_strlit("ょ");
            }
            Some("ょ")
        },  // yo
        204 => {
            proof {
                reveal_strlit("ア");
            }
            Some("ア")
        },  // Katakana: a
        205 => {
            proof {
                reveal_strlit("イ");
            }
            Some("イ")
        },  // i
        206 => {
            proof {
                reveal_strlit("ウ");
            }
            Some("ウ")
        },  // u
        207 => {
            proof {
                reveal_strlit("エ");
            }
            Some("エ")
        },  // e
        208 => {
            proof {
                reveal_strlit("オ");
            }
            Some("オ")
        },  // o
        209 => {
            proof {
                reveal_strlit("カ");
            }
            Some("カ")
        },  // ka
        210 => {
            proof {
                reveal_strlit("キ");
            }
            Some("キ")
        },  // ki
        211 => {
            proof {
                reveal_strlit("ク");
            }
            Some("ク")
        },  // ku
        212 => {
            proof {
                reveal_strlit("ケ");
            }
            Some("ケ")
        },  // ke
        213 => {
            proof {
                reveal_strlit("コ");
            }
            Some("コ")
        },  // ko
        214 => {
            proof {
                reveal_strlit("サ");
            }
            Some("サ")
        },  // sa
        215 => {
            proof {
                reveal_strlit("シ");
            }
            Some("シ")
        },  // si
        216 => {
            proof {
                reveal_strlit("ス");
            }
            Some("ス")
        },  // su
        217 => {
            proof {
                reveal_strlit("セ");
            }
            Some("セ")
        },  // se
        218 => {
            proof {
                reveal_strlit("ソ");
            }
            Some("ソ")
        },  // so
        219 => {
            proof {
                reveal_strlit("タ");
            }
            Some("タ")
        },  // ta
        220 => {
            proof {
                reveal_strlit("チ");
            }
            Some("チ")
        },  // chi
        221 => {
            proof {
                reveal_strlit("ツ");
            }
            Some("ツ")
        },  // tsu
        222 => {
            proof {
                reveal_strlit("テ");
            }
            Some("テ")
        },  // te
        223 => {
            proof {
                reveal_strlit("ト");
            }
            Some("ト")
        },  // to
        224 => {
            proof {
                reveal_strlit("ナ");
            }
            Some("ナ")
        },  // na
        225 => {
            proof {
                reveal_strlit("ニ");
            }
            Some("ニ")
        },  // ni
        226 => {
            proof {
                reveal_strlit("ヌ");
            }
            Some("ヌ")
        },  // nu
        227 => {
            proof {
                reveal_strlit("ネ");
            }
            Some("ネ")
        },  // ne
        228 => {
            proof {
                reveal_strlit("ノ");
            }
            Some("ノ")
        },  // no
        229 => {
            proof {
                reveal_strlit("ハ");
            }
            Some("ハ")
        },  // ha
        230 => {
            proof {
                reveal_strlit("ヒ");
            }
            Some("ヒ")
        },  // hi
        231 => {
            proof {
                reveal_strlit("フ");
            }
            Some("フ")
        },  // phu
        232 => {
            proof {
                reveal_strlit("ヘ");
            }
            Some("ヘ")
        },  // he
        233 => {
            proof {
                reveal_strlit("ホ");
            }
            Some("ホ")
        },  // ho
        234 => {
            proof {
                reveal_strlit("マ");
            }
            Some("マ")
        },  // ma
        235 => {
            proof {
                reveal_strlit("ミ");
            }
            Some("ミ")
        },  // mi
        236 => {
            proof {
                reveal_strlit("ム");
            }
            Some("ム")
        },  // mu
        237 => {
            proof {
                reveal_strlit("メ");
            }
            Some("メ")
        },  // me
        238 => {
            proof {
                reveal_strlit("モ");
            }
            Some("モ")
        },  // mo
        239 => {
            proof {
                reveal_strlit("ヤ");
            }
            Some("ヤ")
        },  // ya
        240 => {
            proof {
                reveal_strlit("ユ");
            }
            Some("ユ")
        },  // yu
        241 => {
            proof {
                reveal_strlit("ヨ");
            }
            Some("ヨ")
        },  // yo
        242 => {
            proof {
                reveal_strlit("ラ");
            }
            Some("ラ")
        },  // ra
        243 => {
            proof {
                reveal_strlit("リ");
            }
            Some("リ")
        },  // ri
        244 => {
            proof {
                reveal_strlit("ル");
            }
            Some("ル")
        },  // ru
        245 => {
            proof {
                reveal_strlit("レ");
            }
            Some("レ")
        },  // re
        246 => {
            proof {
                reveal_strlit("ロ");
            }
            Some("ロ")
        },  // ro
        247 => {
            proof {
                reveal_strlit("ワ");
            }
            Some("ワ")
        },  // wa
        248 => {
            proof {
                reveal_strlit("ヲ");
            }
            Some("ヲ")
        },  // wo
        249 => {
            proof {
                reveal_strlit("ン");
            }
            Some("ン")
        },  // n
        250 => {
            proof {
                reveal_strlit("ッ");
            }
            Some("ッ")
        },  // Katakana sokuon
        251 => {
            proof {
                reveal_strlit("ャ");
            }
            Some("ャ")
        },  // Katakana digraphs: ya
        252 => {
            proof {
                reveal_strlit("ュ");
            }
            Some("ュ")
        },  // yu
        253 => {
            proof {
                reveal_strlit("ョ");
            }
            Some("ョ")
        },  // yo
        254 => {
            proof {
                reveal_strlit("◜");
            }
            Some("◜")
        },  // Left arc
        255 => {
            proof {
                reveal_strlit("◝");
            }
            Some("◝")
        },  // Right arc
        _ => None,
    }
}

/// The UTF-8 text of a vector of P8SCII characters: each character with a
/// glyph becomes its glyph, any other becomes the character with its code.
pub fn vec_to_utf8(p8chars: Vec<u8>) -> (r: String)
    ensures
        r@ == p8scii_to_text(p8chars@),
{
    let mut accum = String::new();
    let mut i: usize = 0;
    while i < p8chars.len()
        invariant
            i <= p8chars@.len(),
            accum@ == p8scii_to_text(p8chars@.subrange(0, i as int)),
        decreases p8chars@.len() - i,
    {
        let c = p8chars[i];
        assert(p8chars@.subrange(0, i + 1).drop_last() =~= p8chars@.subrange(0, i as int));
        match char_to_utf8(c) {
            Some(utf8) => {
                accum.append(utf8);
            },
            None => {
                let s = char_of_byte(c);
                accum.append(s.as_str());
            },
        }
        i = i + 1;
    }
    assert(p8chars@.subrange(0, p8chars@.len() as int) =~= p8chars@);
    accum
}

/// Does a P8SCII character render as the character with its own code: the
/// control codes and printable ASCII?
pub open spec fn renders_as_itself(c: u8) -> bool {
    c < 16 || (32 <= c < 127)
}

/// Text made only of control codes and printable ASCII comes out of
/// `vec_to_utf8` unchanged, a character per byte.
pub proof fn lemma_ascii_unchanged(cs: Seq<u8>)
    requires
        forall|i: int| 0 <= i < cs.len() ==> renders_as_itself(#[trigger] cs[i]),
    ensures
        p8scii_to_text(cs) == Seq::new(cs.len(), |i: int| cs[i] as char),
    decreases cs.len(),
{
    if cs.len() > 0 {
        let init = cs.drop_last();
        assert forall|i: int| 0 <= i < init.len() implies renders_as_itself(#[trigger] init[i]) by {
            assert(init[i] == cs[i]);
        }
        lemma_ascii_unchanged(init);
        let c = cs.last();
        assert(renders_as_itself(cs[cs.len() - 1]));
        assert(p8scii_text(c) == seq![c as char]);
        assert(p8scii_to_text(cs) =~= Seq::new(cs.len(), |i: int| cs[i] as char));
    }
}

} // verus!
