//! Key codes: the Windows virtual-key (VK) codes that the parent application
//! speaks, and the X11 keysyms and Linux `KEY_*` codes (a US layout) that they
//! stand for.
use crate::json;
use crate::text;
use vstd::prelude::*;

verus! {

/// The Linux codes of the modifier keys, in ascending order: left control, left
/// shift, right shift, left alt, right control, right alt, left and right meta.
pub const EVDEV_MODIFIERS: [u16; 8] = [29, 42, 54, 56, 97, 100, 125, 126];

/// The US keysym of a VK code.
pub open spec fn keysym_of(vk: u32) -> Option<u32> {
    if 48 <= vk <= 57 {
        // the digits stand for themselves
        Some(vk)
    } else if 65 <= vk <= 90 {
        // capitals become small letters
        Some((vk + 32) as u32)
    } else if 96 <= vk <= 105 {
        // the digits of the number pad
        Some((vk - 96 + 0xffb0) as u32)
    } else if 112 <= vk <= 135 {
        // f1 to f24
        Some((vk - 112 + 0xffbe) as u32)
    } else if 160 <= vk <= 163 {
        // left and right shift, left and right control
        Some((vk - 160 + 0xffe1) as u32)
    } else {
        match vk {
            8 => Some(0xff08),  // backspace
            9 => Some(0xff09),  // tab
            13 => Some(0xff0d),  // enter
            19 => Some(0xff7f),  // num_lock
            20 => Some(0xffe5),  // caps_lock
            27 => Some(0xff1b),  // esc
            32 => Some(0x0020),  // space
            33 => Some(0xff55),  // page_up
            34 => Some(0xff56),  // page_down
            35 => Some(0xff57),  // end
            36 => Some(0xff50),  // home
            37 => Some(0xff51),  // left
            38 => Some(0xff52),  // up
            39 => Some(0xff53),  // right
            40 => Some(0xff54),  // down
            42 => Some(0xff61),  // print
            44 => Some(0xff61),  // print_screen
            45 => Some(0xff63),  // insert
            46 => Some(0xffff),  // delete
            91 => Some(0xffeb),  // win
            92 => Some(0xffec),  // win_r
            106 => Some(0xffaa),  // multiply
            107 => Some(0xffab),  // add
            108 => Some(0xffad),  // subtract
            110 => Some(0xffae),  // decimal
            111 => Some(0xffaf),  // divide
            164 => Some(0xffe9),  // alt
            165 => Some(0xffea),  // alt_r
            186 => Some(0x003b),  // semicolon
            187 => Some(0x003d),  // equals
            188 => Some(0x002c),  // comma
            189 => Some(0x002d),  // minus
            190 => Some(0x002e),  // period
            191 => Some(0x002f),  // forwardSlash
            192 => Some(0x0060),  // backTick
            219 => Some(0x005b),  // squareBracketOpen
            220 => Some(0x005c),  // backSlash
            221 => Some(0x005d),  // squareBracketClose
            222 => Some(0x0027),  // apostrophe
            _ => None,
        }
    }
}

/// The Linux key code of a VK code.
pub open spec fn evdev_of(vk: u32) -> Option<u16> {
    if 49 <= vk <= 57 {
        // 1 to 9
        Some((vk - 47) as u16)
    } else if 112 <= vk <= 121 {
        // f1 to f10
        Some((vk - 53) as u16)
    } else if 124 <= vk <= 135 {
        // f13 to f24
        Some((vk + 59) as u16)
    } else {
        match vk {
            8 => Some(14),  // backspace
            9 => Some(15),  // tab
            13 => Some(28),  // enter
            19 => Some(69),  // num_lock
            20 => Some(58),  // caps_lock
            27 => Some(1),  // esc
            32 => Some(57),  // space
            33 => Some(104),  // page_up
            34 => Some(109),  // page_down
            35 => Some(107),  // end
            36 => Some(102),  // home
            37 => Some(105),  // left
            38 => Some(103),  // up
            39 => Some(106),  // right
            40 => Some(108),  // down
            44 => Some(99),  // print_screen (SYSRQ)
            45 => Some(110),  // insert
            46 => Some(111),  // delete
            48 => Some(11),  // 0
            65 => Some(30),  // a
            66 => Some(48),  // b
            67 => Some(46),  // c
            68 => Some(32),  // d
            69 => Some(18),  // e
            70 => Some(33),  // f
            71 => Some(34),  // g
            72 => Some(35),  // h
            73 => Some(23),  // i
            74 => Some(36),  // j
            75 => Some(37),  // k
            76 => Some(38),  // l
            77 => Some(50),  // m
            78 => Some(49),  // n
            79 => Some(24),  // o
            80 => Some(25),  // p
            81 => Some(16),  // q
            82 => Some(19),  // r
            83 => Some(31),  // s
            84 => Some(20),  // t
            85 => Some(22),  // u
            86 => Some(47),  // v
            87 => Some(17),  // w
            88 => Some(45),  // x
            89 => Some(21),  // y
            90 => Some(44),  // z
            91 => Some(125),  // win -> left meta
            92 => Some(126),  // win_r -> right meta
            96 => Some(82),  // num_pad_zero
            97 => Some(79),  // num_pad_one
            98 => Some(80),  // num_pad_two
            99 => Some(81),  // num_pad_three
            100 => Some(75),  // num_pad_four
            101 => Some(76),  // num_pad_five
            102 => Some(77),  // num_pad_six
            103 => Some(71),  // num_pad_seven
            104 => Some(72),  // num_pad_eight
            105 => Some(73),  // num_pad_nine
            106 => Some(55),  // multiply (KPASTERISK)
            107 => Some(78),  // add (KPPLUS)
            108 => Some(74),  // subtract (KPMINUS)
            110 => Some(83),  // decimal (KPDOT)
            111 => Some(98),  // divide (KPSLASH)
            122 => Some(87),  // f11
            123 => Some(88),  // f12
            160 => Some(42),  // shift
            161 => Some(54),  // shift_r
            162 => Some(29),  // ctrl
            163 => Some(97),  // ctrl_r
            164 => Some(56),  // alt
            165 => Some(100),  // alt_r
            186 => Some(39),  // semicolon
            187 => Some(13),  // equals
            188 => Some(51),  // comma
            189 => Some(12),  // minus
            190 => Some(52),  // period
            191 => Some(53),  // forwardSlash
            192 => Some(41),  // backTick (grave)
            219 => Some(26),  // squareBracketOpen
            220 => Some(43),  // backSlash
            221 => Some(27),  // squareBracketClose
            222 => Some(40),  // apostrophe
            _ => None,
        }
    }
}

/// The VK code of a Linux key code.
pub open spec fn vk_of(code: u16) -> Option<u32> {
    if 2 <= code <= 10 {
        // 1 to 9
        Some((code + 47) as u32)
    } else if 59 <= code <= 68 {
        // f1 to f10
        Some((code + 53) as u32)
    } else if 183 <= code <= 194 {
        // f13 to f24
        Some((code - 59) as u32)
    } else {
        match code {
            1 => Some(27),  // esc
            11 => Some(48),  // 0
            12 => Some(189),  // minus
            13 => Some(187),  // equals
            14 => Some(8),  // backspace
            15 => Some(9),  // tab
            16 => Some(81),  // q
            17 => Some(87),  // w
            18 => Some(69),  // e
            19 => Some(82),  // r
            20 => Some(84),  // t
            21 => Some(89),  // y
            22 => Some(85),  // u
            23 => Some(73),  // i
            24 => Some(79),  // o
            25 => Some(80),  // p
            26 => Some(219),  // squareBracketOpen
            27 => Some(221),  // squareBracketClose
            28 => Some(13),  // enter
            29 => Some(162),  // left ctrl
            30 => Some(65),  // a
            31 => Some(83),  // s
            32 => Some(68),  // d
            33 => Some(70),  // f
            34 => Some(71),  // g
            35 => Some(72),  // h
            36 => Some(74),  // j
            37 => Some(75),  // k
            38 => Some(76),  // l
            39 => Some(186),  // semicolon
            40 => Some(222),  // apostrophe
            41 => Some(192),  // backTick (grave)
            42 => Some(160),  // left shift
            43 => Some(220),  // backSlash
            44 => Some(90),  // z
            45 => Some(88),  // x
            46 => Some(67),  // c
            47 => Some(86),  // v
            48 => Some(66),  // b
            49 => Some(78),  // n
            50 => Some(77),  // m
            51 => Some(188),  // comma
            52 => Some(190),  // period
            53 => Some(191),  // forwardSlash
            54 => Some(161),  // right shift
            55 => Some(106),  // KPASTERISK (multiply)
            56 => Some(164),  // left alt
            57 => Some(32),  // space
            58 => Some(20),  // caps_lock
            69 => Some(19),  // num_lock
            71 => Some(103),  // num_pad_seven
            72 => Some(104),  // num_pad_eight
            73 => Some(105),  // num_pad_nine
            74 => Some(108),  // KPMINUS (subtract)
            75 => Some(100),  // num_pad_four
            76 => Some(101),  // num_pad_five
            77 => Some(102),  // num_pad_six
            78 => Some(107),  // KPPLUS (add)
            79 => Some(97),  // num_pad_one
            80 => Some(98),  // num_pad_two
            81 => Some(99),  // num_pad_three
            82 => Some(96),  // num_pad_zero
            83 => Some(110),  // KPDOT (decimal)
            87 => Some(122),  // f11
            88 => Some(123),  // f12
            97 => Some(163),  // right ctrl
            98 => Some(111),  // KPSLASH (divide)
            99 => Some(44),  // print_screen (SYSRQ)
            100 => Some(165),  // right alt
            102 => Some(36),  // home
            103 => Some(38),  // up
            104 => Some(33),  // page_up
            105 => Some(37),  // left
            106 => Some(39),  // right
            107 => Some(35),  // end
            108 => Some(40),  // down
            109 => Some(34),  // page_down
            110 => Some(45),  // insert
            111 => Some(46),  // delete
            125 => Some(91),  // left meta (win)
            126 => Some(92),  // right meta (win_r)
            _ => None,
        }
    }
}

/// The flag names that mean the Windows, Command or Super key.
pub open spec fn is_meta_flag(flag: Seq<char>) -> bool {
    flag == "Command"@ || flag == "Meta"@ || flag == "Super"@
}

/// The keysym of the modifier that a flag names.
pub open spec fn flag_keysym(flag: Seq<char>) -> Option<u32> {
    if flag == "Shift"@ {
        Some(0xffe1)
    } else if flag == "Control"@ {
        Some(0xffe3)
    } else if flag == "Alt"@ {
        Some(0xffe9)
    } else if is_meta_flag(flag) {
        Some(0xffeb)
    } else {
        None
    }
}

/// The Linux key code of the modifier that a flag names.
pub open spec fn flag_evdev(flag: Seq<char>) -> Option<u16> {
    if flag == "Shift"@ {
        Some(42)
    } else if flag == "Control"@ {
        Some(29)
    } else if flag == "Alt"@ {
        Some(56)
    } else if is_meta_flag(flag) {
        Some(125)
    } else {
        None
    }
}

/// The US X11 keysym for a VK code, or `None` if the code is not mapped.
pub fn vk_to_keysym(vk: u32) -> (r: Option<u32>)
    ensures
        r == keysym_of(vk),
{
    match vk {
        8 => Some(0xff08), // backspace
        9 => Some(0xff09), // tab
        13 => Some(0xff0d), // enter
        19 => Some(0xff7f), // num_lock
        20 => Some(0xffe5), // caps_lock
        27 => Some(0xff1b), // esc
        32 => Some(0x0020), // space
        33 => Some(0xff55), // page_up
        34 => Some(0xff56), // page_down
        35 => Some(0xff57), // end
        36 => Some(0xff50), // home
        37 => Some(0xff51), // left
        38 => Some(0xff52), // up
        39 => Some(0xff53), // right
        40 => Some(0xff54), // down
        42 => Some(0xff61), // print
        44 => Some(0xff61), // print_screen
        45 => Some(0xff63), // insert
        46 => Some(0xffff), // delete
        48 => Some(0x0030), // zero
        49 => Some(0x0031), // one
        50 => Some(0x0032), // two
        51 => Some(0x0033), // three
        52 => Some(0x0034), // four
        53 => Some(0x0035), // five
        54 => Some(0x0036), // six
        55 => Some(0x0037), // seven
        56 => Some(0x0038), // eight
        57 => Some(0x0039), // nine
        65 => Some(0x0061), // a
        66 => Some(0x0062), // b
        67 => Some(0x0063), // c
        68 => Some(0x0064), // d
        69 => Some(0x0065), // e
        70 => Some(0x0066), // f
        71 => Some(0x0067), // g
        72 => Some(0x0068), // h
        73 => Some(0x0069), // i
        74 => Some(0x006a), // j
        75 => Some(0x006b), // k
        76 => Some(0x006c), // l
        77 => Some(0x006d), // m
        78 => Some(0x006e), // n
        79 => Some(0x006f), // o
        80 => Some(0x0070), // p
        81 => Some(0x0071), // q
        82 => Some(0x0072), // r
        83 => Some(0x0073), // s
        84 => Some(0x0074), // t
        85 => Some(0x0075), // u
        86 => Some(0x0076), // v
        87 => Some(0x0077), // w
        88 => Some(0x0078), // x
        89 => Some(0x0079), // y
        90 => Some(0x007a), // z
        91 => Some(0xffeb), // win
        92 => Some(0xffec), // win_r
        96 => Some(0xffb0), // num_pad_zero
        97 => Some(0xffb1), // num_pad_one
        98 => Some(0xffb2), // num_pad_two
        99 => Some(0xffb3), // num_pad_three
        100 => Some(0xffb4), // num_pad_four
        101 => Some(0xffb5), // num_pad_five
        102 => Some(0xffb6), // num_pad_six
        103 => Some(0xffb7), // num_pad_seven
        104 => Some(0xffb8), // num_pad_eight
        105 => Some(0xffb9), // num_pad_nine
        106 => Some(0xffaa), // multiply
        107 => Some(0xffab), // add
        108 => Some(0xffad), // subtract
        110 => Some(0xffae), // decimal
        111 => Some(0xffaf), // divide
        112 => Some(0xffbe), // f1
        113 => Some(0xffbf), // f2
        114 => Some(0xffc0), // f3
        115 => Some(0xffc1), // f4
        116 => Some(0xffc2), // f5
        117 => Some(0xffc3), // f6
        118 => Some(0xffc4), // f7
        119 => Some(0xffc5), // f8
        120 => Some(0xffc6), // f9
        121 => Some(0xffc7), // f10
        122 => Some(0xffc8), // f11
        123 => Some(0xffc9), // f12
        124 => Some(0xffca), // f13
        125 => Some(0xffcb), // f14
        126 => Some(0xffcc), // f15
        127 => Some(0xffcd), // f16
        128 => Some(0xffce), // f17
        129 => Some(0xffcf), // f18
        130 => Some(0xffd0), // f19
        131 => Some(0xffd1), // f20
        132 => Some(0xffd2), // f21
        133 => Some(0xffd3), // f22
        134 => Some(0xffd4), // f23
        135 => Some(0xffd5), // f24
        160 => Some(0xffe1), // shift
        161 => Some(0xffe2), // shift_r
        162 => Some(0xffe3), // ctrl
        163 => Some(0xffe4), // ctrl_r
        164 => Some(0xffe9), // alt
        165 => Some(0xffea), // alt_r
        186 => Some(0x003b), // semicolon
        187 => Some(0x003d), // equals
        188 => Some(0x002c), // comma
        189 => Some(0x002d), // minus
        190 => Some(0x002e), // period
        191 => Some(0x002f), // forwardSlash
        192 => Some(0x0060), // backTick
        219 => Some(0x005b), // squareBracketOpen
        220 => Some(0x005c), // backSlash
        221 => Some(0x005d), // squareBracketClose
        222 => Some(0x0027), // apostrophe
        _ => None,
    }
}

/// The X11 keysym of the modifier that a flag names.
pub fn flag_to_keysym(flag: &str) -> (r: Option<u32>)
    ensures
        r == flag_keysym(flag@),
{
    if text::same(flag, "Shift") {
        Some(0xffe1)
    } else if text::same(flag, "Control") {
        Some(0xffe3)
    } else if text::same(flag, "Alt") {
        Some(0xffe9)
    } else if text::same(flag, "Command") || text::same(flag, "Meta") || text::same(flag, "Super") {
        Some(0xffeb)
    } else {
        None
    }
}

/// The Linux `KEY_*` code for a VK code, or `None` if the code is not mapped.
pub fn vk_to_evdev(vk: u32) -> (r: Option<u16>)
    ensures
        r == evdev_of(vk),
{
    match vk {
        8 => Some(14), // backspace
        9 => Some(15), // tab
        13 => Some(28), // enter
        19 => Some(69), // num_lock
        20 => Some(58), // caps_lock
        27 => Some(1), // esc
        32 => Some(57), // space
        33 => Some(104), // page_up
        34 => Some(109), // page_down
        35 => Some(107), // end
        36 => Some(102), // home
        37 => Some(105), // left
        38 => Some(103), // up
        39 => Some(106), // right
        40 => Some(108), // down
        44 => Some(99), // print_screen (SYSRQ)
        45 => Some(110), // insert
        46 => Some(111), // delete
        48 => Some(11), // 0
        49 => Some(2), // 1
        50 => Some(3), // 2
        51 => Some(4), // 3
        52 => Some(5), // 4
        53 => Some(6), // 5
        54 => Some(7), // 6
        55 => Some(8), // 7
        56 => Some(9), // 8
        57 => Some(10), // 9
        65 => Some(30), // a
        66 => Some(48), // b
        67 => Some(46), // c
        68 => Some(32), // d
        69 => Some(18), // e
        70 => Some(33), // f
        71 => Some(34), // g
        72 => Some(35), // h
        73 => Some(23), // i
        74 => Some(36), // j
        75 => Some(37), // k
        76 => Some(38), // l
        77 => Some(50), // m
        78 => Some(49), // n
        79 => Some(24), // o
        80 => Some(25), // p
        81 => Some(16), // q
        82 => Some(19), // r
        83 => Some(31), // s
        84 => Some(20), // t
        85 => Some(22), // u
        86 => Some(47), // v
        87 => Some(17), // w
        88 => Some(45), // x
        89 => Some(21), // y
        90 => Some(44), // z
        91 => Some(125), // win -> left meta
        92 => Some(126), // win_r -> right meta
        96 => Some(82), // num_pad_zero
        97 => Some(79), // num_pad_one
        98 => Some(80), // num_pad_two
        99 => Some(81), // num_pad_three
        100 => Some(75), // num_pad_four
        101 => Some(76), // num_pad_five
        102 => Some(77), // num_pad_six
        103 => Some(71), // num_pad_seven
        104 => Some(72), // num_pad_eight
        105 => Some(73), // num_pad_nine
        106 => Some(55), // multiply (KPASTERISK)
        107 => Some(78), // add (KPPLUS)
        108 => Some(74), // subtract (KPMINUS)
        110 => Some(83), // decimal (KPDOT)
        111 => Some(98), // divide (KPSLASH)
        112 => Some(59), // f1
        113 => Some(60), // f2
        114 => Some(61), // f3
        115 => Some(62), // f4
        116 => Some(63), // f5
        117 => Some(64), // f6
        118 => Some(65), // f7
        119 => Some(66), // f8
        120 => Some(67), // f9
        121 => Some(68), // f10
        122 => Some(87), // f11
        123 => Some(88), // f12
        124 => Some(183), // f13
        125 => Some(184), // f14
        126 => Some(185), // f15
        127 => Some(186), // f16
        128 => Some(187), // f17
        129 => Some(188), // f18
        130 => Some(189), // f19
        131 => Some(190), // f20
        132 => Some(191), // f21
        133 => Some(192), // f22
        134 => Some(193), // f23
        135 => Some(194), // f24
        160 => Some(42), // shift
        161 => Some(54), // shift_r
        162 => Some(29), // ctrl
        163 => Some(97), // ctrl_r
        164 => Some(56), // alt
        165 => Some(100), // alt_r
        186 => Some(39), // semicolon
        187 => Some(13), // equals
        188 => Some(51), // comma
        189 => Some(12), // minus
        190 => Some(52), // period
        191 => Some(53), // forwardSlash
        192 => Some(41), // backTick (grave)
        219 => Some(26), // squareBracketOpen
        220 => Some(43), // backSlash
        221 => Some(27), // squareBracketClose
        222 => Some(40), // apostrophe
        _ => None,
    }
}

/// The VK code for a Linux `KEY_*` code, or `None` if the code is not mapped:
/// the inverse of `vk_to_evdev`.
pub fn evdev_to_vk(code: u16) -> (r: Option<u32>)
    ensures
        r == vk_of(code),
        forall|vk: u32| r == Some(vk) <==> #[trigger] evdev_of(vk) == Some(code),
{
    proof {
        assert forall|vk: u32| vk_of(code) == Some(vk) <==> #[trigger] evdev_of(vk) == Some(code) by {
            law_codes_are_inverse(vk, code);
        }
    }
    match code {
        1 => Some(27), // esc
        2 => Some(49), // 1
        3 => Some(50), // 2
        4 => Some(51), // 3
        5 => Some(52), // 4
        6 => Some(53), // 5
        7 => Some(54), // 6
        8 => Some(55), // 7
        9 => Some(56), // 8
        10 => Some(57), // 9
        11 => Some(48), // 0
        12 => Some(189), // minus
        13 => Some(187), // equals
        14 => Some(8), // backspace
        15 => Some(9), // tab
        16 => Some(81), // q
        17 => Some(87), // w
        18 => Some(69), // e
        19 => Some(82), // r
        20 => Some(84), // t
        21 => Some(89), // y
        22 => Some(85), // u
        23 => Some(73), // i
        24 => Some(79), // o
        25 => Some(80), // p
        26 => Some(219), // squareBracketOpen
        27 => Some(221), // squareBracketClose
        28 => Some(13), // enter
        29 => Some(162), // left ctrl
        30 => Some(65), // a
        31 => Some(83), // s
        32 => Some(68), // d
        33 => Some(70), // f
        34 => Some(71), // g
        35 => Some(72), // h
        36 => Some(74), // j
        37 => Some(75), // k
        38 => Some(76), // l
        39 => Some(186), // semicolon
        40 => Some(222), // apostrophe
        41 => Some(192), // backTick (grave)
        42 => Some(160), // left shift
        43 => Some(220), // backSlash
        44 => Some(90), // z
        45 => Some(88), // x
        46 => Some(67), // c
        47 => Some(86), // v
        48 => Some(66), // b
        49 => Some(78), // n
        50 => Some(77), // m
        51 => Some(188), // comma
        52 => Some(190), // period
        53 => Some(191), // forwardSlash
        54 => Some(161), // right shift
        55 => Some(106), // KPASTERISK (multiply)
        56 => Some(164), // left alt
        57 => Some(32), // space
        58 => Some(20), // caps_lock
        59 => Some(112), // f1
        60 => Some(113), // f2
        61 => Some(114), // f3
        62 => Some(115), // f4
        63 => Some(116), // f5
        64 => Some(117), // f6
        65 => Some(118), // f7
        66 => Some(119), // f8
        67 => Some(120), // f9
        68 => Some(121), // f10
        69 => Some(19), // num_lock
        71 => Some(103), // num_pad_seven
        72 => Some(104), // num_pad_eight
        73 => Some(105), // num_pad_nine
        74 => Some(108), // KPMINUS (subtract)
        75 => Some(100), // num_pad_four
        76 => Some(101), // num_pad_five
        77 => Some(102), // num_pad_six
        78 => Some(107), // KPPLUS (add)
        79 => Some(97), // num_pad_one
        80 => Some(98), // num_pad_two
        81 => Some(99), // num_pad_three
        82 => Some(96), // num_pad_zero
        83 => Some(110), // KPDOT (decimal)
        87 => Some(122), // f11
        88 => Some(123), // f12
        97 => Some(163), // right ctrl
        98 => Some(111), // KPSLASH (divide)
        99 => Some(44), // print_screen (SYSRQ)
        100 => Some(165), // right alt
        102 => Some(36), // home
        103 => Some(38), // up
        104 => Some(33), // page_up
        105 => Some(37), // left
        106 => Some(39), // right
        107 => Some(35), // end
        108 => Some(40), // down
        109 => Some(34), // page_down
        110 => Some(45), // insert
        111 => Some(46), // delete
        125 => Some(91), // left meta (win)
        126 => Some(92), // right meta (win_r)
        183 => Some(124), // f13
        184 => Some(125), // f14
        185 => Some(126), // f15
        186 => Some(127), // f16
        187 => Some(128), // f17
        188 => Some(129), // f18
        189 => Some(130), // f19
        190 => Some(131), // f20
        191 => Some(132), // f21
        192 => Some(133), // f22
        193 => Some(134), // f23
        194 => Some(135), // f24
        _ => None,
    }
}

/// The Linux `KEY_*` code of the modifier that a flag names.
pub fn flag_to_evdev(flag: &str) -> (r: Option<u16>)
    ensures
        r == flag_evdev(flag@),
{
    if text::same(flag, "Shift") {
        Some(42)
    } else if text::same(flag, "Control") {
        Some(29)
    } else if text::same(flag, "Alt") {
        Some(56)
    } else if text::same(flag, "Command") || text::same(flag, "Meta") || text::same(flag, "Super") {
        Some(125)
    } else {
        None
    }
}

/// The keysyms of the modifiers that the flags name, in order. Flags that name
/// none are left out.
pub open spec fn flags_keysyms(flags: Seq<Seq<char>>) -> Seq<u32>
    decreases flags.len(),
{
    if flags.len() == 0 {
        Seq::empty()
    } else {
        let before = flags_keysyms(flags.drop_last());
        match flag_keysym(flags.last()) {
            Some(keysym) => before.push(keysym),
            None => before,
        }
    }
}

/// The Linux codes of the modifiers that the flags name, in order. Flags that
/// name none are left out.
pub open spec fn flags_evdev(flags: Seq<Seq<char>>) -> Seq<u16>
    decreases flags.len(),
{
    if flags.len() == 0 {
        Seq::empty()
    } else {
        let before = flags_evdev(flags.drop_last());
        match flag_evdev(flags.last()) {
            Some(code) => before.push(code),
            None => before,
        }
    }
}

/// What the flag `Control` alone names.
pub proof fn lemma_control_flag()
    ensures
        flags_keysyms(seq!["Control"@]) == seq![0xffe3u32],
        flags_evdev(seq!["Control"@]) == seq![29u16],
{
    let flags = seq!["Control"@];
    assert("Control"@ != "Shift"@) by {
        reveal_strlit("Control");
        reveal_strlit("Shift");
        assert("Control"@.len() != "Shift"@.len());
    }
    reveal_with_fuel(flags_keysyms, 2);
    reveal_with_fuel(flags_evdev, 2);
    assert(flags.drop_last() =~= Seq::empty());
    assert(flags.last() == "Control"@);
    assert(flags_keysyms(flags) =~= seq![0xffe3u32]);
    assert(flags_evdev(flags) =~= seq![29u16]);
}

/// The keysyms of the modifiers that the flags name.
pub fn flags_to_keysyms(flags: &[String]) -> (r: Vec<u32>)
    ensures
        r@ == flags_keysyms(json::text_views(flags@)),
{
    let ghost names = json::text_views(flags@);
    let mut out: Vec<u32> = Vec::new();
    let mut i: usize = 0;
    while i < flags.len()
        invariant
            i <= flags@.len(),
            names == json::text_views(flags@),
            out@ == flags_keysyms(names.take(i as int)),
        decreases flags@.len() - i,
    {
        proof {
            assert(names.take(i + 1).drop_last() =~= names.take(i as int));
            assert(names.take(i + 1).last() == flags@[i as int]@);
        }
        match flag_to_keysym(flags[i].as_str()) {
            Some(keysym) => {
                out.push(keysym);
            },
            None => {},
        }
        i = i + 1;
    }
    proof {
        assert(names.take(i as int) =~= names);
    }
    out
}

/// The Linux codes of the modifiers that the flags name.
pub fn flags_to_evdev(flags: &[String]) -> (r: Vec<u16>)
    ensures
        r@ == flags_evdev(json::text_views(flags@)),
{
    let ghost names = json::text_views(flags@);
    let mut out: Vec<u16> = Vec::new();
    let mut i: usize = 0;
    while i < flags.len()
        invariant
            i <= flags@.len(),
            names == json::text_views(flags@),
            out@ == flags_evdev(names.take(i as int)),
        decreases flags@.len() - i,
    {
        proof {
            assert(names.take(i + 1).drop_last() =~= names.take(i as int));
            assert(names.take(i + 1).last() == flags@[i as int]@);
        }
        match flag_to_evdev(flags[i].as_str()) {
            Some(code) => {
                out.push(code);
            },
            None => {},
        }
        i = i + 1;
    }
    proof {
        assert(names.take(i as int) =~= names);
    }
    out
}

/// The two key tables are exact inverses: a VK code has a Linux code exactly
/// when that Linux code has the VK code.
pub proof fn law_codes_are_inverse(vk: u32, code: u16)
    ensures
        evdev_of(vk) == Some(code) <==> vk_of(code) == Some(vk),
{
}

/// No two VK codes share a Linux code.
pub proof fn law_codes_are_distinct(vk1: u32, vk2: u32)
    requires
        evdev_of(vk1) is Some,
        evdev_of(vk1) == evdev_of(vk2),
    ensures
        vk1 == vk2,
{
    law_codes_are_inverse(vk1, evdev_of(vk1)->0);
    law_codes_are_inverse(vk2, evdev_of(vk1)->0);
}

/// Every key that can be pressed through a Linux code can be pressed through a
/// keysym too.
pub proof fn law_evdev_keys_have_keysyms(vk: u32)
    ensures
        evdev_of(vk) is Some ==> keysym_of(vk) is Some,
{
}

/// A flag names a modifier for the one kind of code exactly when it does for
/// the other.
pub proof fn law_flags_agree(flag: Seq<char>)
    ensures
        flag_evdev(flag) is Some <==> flag_keysym(flag) is Some,
{
}

/// The keysym of every key that has one, key by key, and no other key has one.
pub proof fn law_keysym_table(vk: u32)
    ensures
        keysym_of(8) == Some(0xff08u32),  // backspace
        keysym_of(9) == Some(0xff09u32),  // tab
        keysym_of(13) == Some(0xff0du32),  // enter
        keysym_of(19) == Some(0xff7fu32),  // num_lock
        keysym_of(20) == Some(0xffe5u32),  // caps_lock
        keysym_of(27) == Some(0xff1bu32),  // esc
        keysym_of(32) == Some(0x0020u32),  // space
        keysym_of(33) == Some(0xff55u32),  // page_up
        keysym_of(34) == Some(0xff56u32),  // page_down
        keysym_of(35) == Some(0xff57u32),  // end
        keysym_of(36) == Some(0xff50u32),  // home
        keysym_of(37) == Some(0xff51u32),  // left
        keysym_of(38) == Some(0xff52u32),  // up
        keysym_of(39) == Some(0xff53u32),  // right
        keysym_of(40) == Some(0xff54u32),  // down
        keysym_of(42) == Some(0xff61u32),  // print
        keysym_of(44) == Some(0xff61u32),  // print_screen
        keysym_of(45) == Some(0xff63u32),  // insert
        keysym_of(46) == Some(0xffffu32),  // delete
        keysym_of(48) == Some(0x0030u32),  // zero
        keysym_of(49) == Some(0x0031u32),  // one
        keysym_of(50) == Some(0x0032u32),  // two
        keysym_of(51) == Some(0x0033u32),  // three
        keysym_of(52) == Some(0x0034u32),  // four
        keysym_of(53) == Some(0x0035u32),  // five
        keysym_of(54) == Some(0x0036u32),  // six
        keysym_of(55) == Some(0x0037u32),  // seven
        keysym_of(56) == Some(0x0038u32),  // eight
        keysym_of(57) == Some(0x0039u32),  // nine
        keysym_of(65) == Some(0x0061u32),  // a
        keysym_of(66) == Some(0x0062u32),  // b
        keysym_of(67) == Some(0x0063u32),  // c
        keysym_of(68) == Some(0x0064u32),  // d
        keysym_of(69) == Some(0x0065u32),  // e
        keysym_of(70) == Some(0x0066u32),  // f
        keysym_of(71) == Some(0x0067u32),  // g
        keysym_of(72) == Some(0x0068u32),  // h
        keysym_of(73) == Some(0x0069u32),  // i
        keysym_of(74) == Some(0x006au32),  // j
        keysym_of(75) == Some(0x006bu32),  // k
        keysym_of(76) == Some(0x006cu32),  // l
        keysym_of(77) == Some(0x006du32),  // m
        keysym_of(78) == Some(0x006eu32),  // n
        keysym_of(79) == Some(0x006fu32),  // o
        keysym_of(80) == Some(0x0070u32),  // p
        keysym_of(81) == Some(0x0071u32),  // q
        keysym_of(82) == Some(0x0072u32),  // r
        keysym_of(83) == Some(0x0073u32),  // s
        keysym_of(84) == Some(0x0074u32),  // t
        keysym_of(85) == Some(0x0075u32),  // u
        keysym_of(86) == Some(0x0076u32),  // v
        keysym_of(87) == Some(0x0077u32),  // w
        keysym_of(88) == Some(0x0078u32),  // x
        keysym_of(89) == Some(0x0079u32),  // y
        keysym_of(90) == Some(0x007au32),  // z
        keysym_of(91) == Some(0xffebu32),  // win
        keysym_of(92) == Some(0xffecu32),  // win_r
        keysym_of(96) == Some(0xffb0u32),  // num_pad_zero
        keysym_of(97) == Some(0xffb1u32),  // num_pad_one
        keysym_of(98) == Some(0xffb2u32),  // num_pad_two
        keysym_of(99) == Some(0xffb3u32),  // num_pad_three
        keysym_of(100) == Some(0xffb4u32),  // num_pad_four
        keysym_of(101) == Some(0xffb5u32),  // num_pad_five
        keysym_of(102) == Some(0xffb6u32),  // num_pad_six
        keysym_of(103) == Some(0xffb7u32),  // num_pad_seven
        keysym_of(104) == Some(0xffb8u32),  // num_pad_eight
        keysym_of(105) == Some(0xffb9u32),  // num_pad_nine
        keysym_of(106) == Some(0xffaau32),  // multiply
        keysym_of(107) == Some(0xffabu32),  // add
        keysym_of(108) == Some(0xffadu32),  // subtract
        keysym_of(110) == Some(0xffaeu32),  // decimal
        keysym_of(111) == Some(0xffafu32),  // divide
        keysym_of(112) == Some(0xffbeu32),  // f1
        keysym_of(113) == Some(0xffbfu32),  // f2
        keysym_of(114) == Some(0xffc0u32),  // f3
        keysym_of(115) == Some(0xffc1u32),  // f4
        keysym_of(116) == Some(0xffc2u32),  // f5
        keysym_of(117) == Some(0xffc3u32),  // f6
        keysym_of(118) == Some(0xffc4u32),  // f7
        keysym_of(119) == Some(0xffc5u32),  // f8
        keysym_of(120) == Some(0xffc6u32),  // f9
        keysym_of(121) == Some(0xffc7u32),  // f10
        keysym_of(122) == Some(0xffc8u32),  // f11
        keysym_of(123) == Some(0xffc9u32),  // f12
        keysym_of(124) == Some(0xffcau32),  // f13
        keysym_of(125) == Some(0xffcbu32),  // f14
        keysym_of(126) == Some(0xffccu32),  // f15
        keysym_of(127) == Some(0xffcdu32),  // f16
        keysym_of(128) == Some(0xffceu32),  // f17
        keysym_of(129) == Some(0xffcfu32),  // f18
        keysym_of(130) == Some(0xffd0u32),  // f19
        keysym_of(131) == Some(0xffd1u32),  // f20
        keysym_of(132) == Some(0xffd2u32),  // f21
        keysym_of(133) == Some(0xffd3u32),  // f22
        keysym_of(134) == Some(0xffd4u32),  // f23
        keysym_of(135) == Some(0xffd5u32),  // f24
        keysym_of(160) == Some(0xffe1u32),  // shift
        keysym_of(161) == Some(0xffe2u32),  // shift_r
        keysym_of(162) == Some(0xffe3u32),  // ctrl
        keysym_of(163) == Some(0xffe4u32),  // ctrl_r
        keysym_of(164) == Some(0xffe9u32),  // alt
        keysym_of(165) == Some(0xffeau32),  // alt_r
        keysym_of(186) == Some(0x003bu32),  // semicolon
        keysym_of(187) == Some(0x003du32),  // equals
        keysym_of(188) == Some(0x002cu32),  // comma
        keysym_of(189) == Some(0x002du32),  // minus
        keysym_of(190) == Some(0x002eu32),  // period
        keysym_of(191) == Some(0x002fu32),  // forwardSlash
        keysym_of(192) == Some(0x0060u32),  // backTick
        keysym_of(219) == Some(0x005bu32),  // squareBracketOpen
        keysym_of(220) == Some(0x005cu32),  // backSlash
        keysym_of(221) == Some(0x005du32),  // squareBracketClose
        keysym_of(222) == Some(0x0027u32),  // apostrophe
        keysym_of(vk) is Some ==> {
            ||| 8 <= vk <= 9
            ||| vk == 13
            ||| 19 <= vk <= 20
            ||| vk == 27
            ||| 32 <= vk <= 40
            ||| vk == 42
            ||| 44 <= vk <= 46
            ||| 48 <= vk <= 57
            ||| 65 <= vk <= 92
            ||| 96 <= vk <= 108
            ||| 110 <= vk <= 135
            ||| 160 <= vk <= 165
            ||| 186 <= vk <= 192
            ||| 219 <= vk <= 222
        },
{
}

/// The Linux code of every key that has one, key by key, and no other key has one.
pub proof fn law_evdev_table(vk: u32)
    ensures
        evdev_of(8) == Some(14u16),  // backspace
        evdev_of(9) == Some(15u16),  // tab
        evdev_of(13) == Some(28u16),  // enter
        evdev_of(19) == Some(69u16),  // num_lock
        evdev_of(20) == Some(58u16),  // caps_lock
        evdev_of(27) == Some(1u16),  // esc
        evdev_of(32) == Some(57u16),  // space
        evdev_of(33) == Some(104u16),  // page_up
        evdev_of(34) == Some(109u16),  // page_down
        evdev_of(35) == Some(107u16),  // end
        evdev_of(36) == Some(102u16),  // home
        evdev_of(37) == Some(105u16),  // left
        evdev_of(38) == Some(103u16),  // up
        evdev_of(39) == Some(106u16),  // right
        evdev_of(40) == Some(108u16),  // down
        evdev_of(44) == Some(99u16),  // print_screen (SYSRQ)
        evdev_of(45) == Some(110u16),  // insert
        evdev_of(46) == Some(111u16),  // delete
        evdev_of(48) == Some(11u16),  // 0
        evdev_of(49) == Some(2u16),  // 1
        evdev_of(50) == Some(3u16),  // 2
        evdev_of(51) == Some(4u16),  // 3
        evdev_of(52) == Some(5u16),  // 4
        evdev_of(53) == Some(6u16),  // 5
        evdev_of(54) == Some(7u16),  // 6
        evdev_of(55) == Some(8u16),  // 7
        evdev_of(56) == Some(9u16),  // 8
        evdev_of(57) == Some(10u16),  // 9
        evdev_of(65) == Some(30u16),  // a
        evdev_of(66) == Some(48u16),  // b
        evdev_of(67) == Some(46u16),  // c
        evdev_of(68) == Some(32u16),  // d
        evdev_of(69) == Some(18u16),  // e
        evdev_of(70) == Some(33u16),  // f
        evdev_of(71) == Some(34u16),  // g
        evdev_of(72) == Some(35u16),  // h
        evdev_of(73) == Some(23u16),  // i
        evdev_of(74) == Some(36u16),  // j
        evdev_of(75) == Some(37u16),  // k
        evdev_of(76) == Some(38u16),  // l
        evdev_of(77) == Some(50u16),  // m
        evdev_of(78) == Some(49u16),  // n
        evdev_of(79) == Some(24u16),  // o
        evdev_of(80) == Some(25u16),  // p
        evdev_of(81) == Some(16u16),  // q
        evdev_of(82) == Some(19u16),  // r
        evdev_of(83) == Some(31u16),  // s
        evdev_of(84) == Some(20u16),  // t
        evdev_of(85) == Some(22u16),  // u
        evdev_of(86) == Some(47u16),  // v
        evdev_of(87) == Some(17u16),  // w
        evdev_of(88) == Some(45u16),  // x
        evdev_of(89) == Some(21u16),  // y
        evdev_of(90) == Some(44u16),  // z
        evdev_of(91) == Some(125u16),  // win -> left meta
        evdev_of(92) == Some(126u16),  // win_r -> right meta
        evdev_of(96) == Some(82u16),  // num_pad_zero
        evdev_of(97) == Some(79u16),  // num_pad_one
        evdev_of(98) == Some(80u16),  // num_pad_two
        evdev_of(99) == Some(81u16),  // num_pad_three
        evdev_of(100) == Some(75u16),  // num_pad_four
        evdev_of(101) == Some(76u16),  // num_pad_five
        evdev_of(102) == Some(77u16),  // num_pad_six
        evdev_of(103) == Some(71u16),  // num_pad_seven
        evdev_of(104) == Some(72u16),  // num_pad_eight
        evdev_of(105) == Some(73u16),  // num_pad_nine
        evdev_of(106) == Some(55u16),  // multiply (KPASTERISK)
        evdev_of(107) == Some(78u16),  // add (KPPLUS)
        evdev_of(108) == Some(74u16),  // subtract (KPMINUS)
        evdev_of(110) == Some(83u16),  // decimal (KPDOT)
        evdev_of(111) == Some(98u16),  // divide (KPSLASH)
        evdev_of(112) == Some(59u16),  // f1
        evdev_of(113) == Some(60u16),  // f2
        evdev_of(114) == Some(61u16),  // f3
        evdev_of(115) == Some(62u16),  // f4
        evdev_of(116) == Some(63u16),  // f5
        evdev_of(117) == Some(64u16),  // f6
        evdev_of(118) == Some(65u16),  // f7
        evdev_of(119) == Some(66u16),  // f8
        evdev_of(120) == Some(67u16),  // f9
        evdev_of(121) == Some(68u16),  // f10
        evdev_of(122) == Some(87u16),  // f11
        evdev_of(123) == Some(88u16),  // f12
        evdev_of(124) == Some(183u16),  // f13
        evdev_of(125) == Some(184u16),  // f14
        evdev_of(126) == Some(185u16),  // f15
        evdev_of(127) == Some(186u16),  // f16
        evdev_of(128) == Some(187u16),  // f17
        evdev_of(129) == Some(188u16),  // f18
        evdev_of(130) == Some(189u16),  // f19
        evdev_of(131) == Some(190u16),  // f20
        evdev_of(132) == Some(191u16),  // f21
        evdev_of(133) == Some(192u16),  // f22
        evdev_of(134) == Some(193u16),  // f23
        evdev_of(135) == Some(194u16),  // f24
        evdev_of(160) == Some(42u16),  // shift
        evdev_of(161) == Some(54u16),  // shift_r
        evdev_of(162) == Some(29u16),  // ctrl
        evdev_of(163) == Some(97u16),  // ctrl_r
        evdev_of(164) == Some(56u16),  // alt
        evdev_of(165) == Some(100u16),  // alt_r
        evdev_of(186) == Some(39u16),  // semicolon
        evdev_of(187) == Some(13u16),  // equals
        evdev_of(188) == Some(51u16),  // comma
        evdev_of(189) == Some(12u16),  // minus
        evdev_of(190) == Some(52u16),  // period
        evdev_of(191) == Some(53u16),  // forwardSlash
        evdev_of(192) == Some(41u16),  // backTick (grave)
        evdev_of(219) == Some(26u16),  // squareBracketOpen
        evdev_of(220) == Some(43u16),  // backSlash
        evdev_of(221) == Some(27u16),  // squareBracketClose
        evdev_of(222) == Some(40u16),  // apostrophe
        evdev_of(vk) is Some ==> {
            ||| 8 <= vk <= 9
            ||| vk == 13
            ||| 19 <= vk <= 20
            ||| vk == 27
            ||| 32 <= vk <= 40
            ||| 44 <= vk <= 46
            ||| 48 <= vk <= 57
            ||| 65 <= vk <= 92
            ||| 96 <= vk <= 108
            ||| 110 <= vk <= 135
            ||| 160 <= vk <= 165
            ||| 186 <= vk <= 192
            ||| 219 <= vk <= 222
        },
{
}

/// The flags name the left modifiers, each by its keysym and its Linux code, and
/// other flags name nothing.
pub proof fn law_flag_names(flag: Seq<char>)
    ensures
        flag_keysym("Shift"@) == Some(0xffe1u32) && flag_evdev("Shift"@) == Some(42u16),
        flag_keysym("Control"@) == Some(0xffe3u32) && flag_evdev("Control"@) == Some(29u16),
        flag_keysym("Alt"@) == Some(0xffe9u32) && flag_evdev("Alt"@) == Some(56u16),
        flag_keysym("Command"@) == Some(0xffebu32) && flag_evdev("Command"@) == Some(125u16),
        flag_keysym("Meta"@) == Some(0xffebu32) && flag_evdev("Meta"@) == Some(125u16),
        flag_keysym("Super"@) == Some(0xffebu32) && flag_evdev("Super"@) == Some(125u16),
        flag_keysym(flag) is Some || flag_evdev(flag) is Some ==> flag == "Shift"@ || flag
            == "Control"@ || flag == "Alt"@ || flag == "Command"@ || flag == "Meta"@ || flag
            == "Super"@,
{
    reveal_strlit("Shift");
    reveal_strlit("Control");
    reveal_strlit("Alt");
    reveal_strlit("Command");
    reveal_strlit("Meta");
    reveal_strlit("Super");
    assert("Shift"@.len() == 5 && "Control"@.len() == 7 && "Alt"@.len() == 3 && "Command"@.len()
        == 7 && "Meta"@.len() == 4 && "Super"@.len() == 5);
    assert("Command"@[1] == 'o' && "Command"@[2] == 'm' && "Control"@[2] == 'n');
    assert("Super"@[1] == 'u' && "Shift"@[1] == 'h');
}

/// The modifiers of a list of flags come in the order of the flags; a flag that
/// names none adds none.
pub proof fn law_flags_in_order(flags: Seq<Seq<char>>, flag: Seq<char>)
    ensures
        flags_keysyms(Seq::empty()) == Seq::<u32>::empty(),
        flags_evdev(Seq::empty()) == Seq::<u16>::empty(),
        flag_keysym(flag) matches Some(keysym) ==> flags_keysyms(flags.push(flag))
            == flags_keysyms(flags).push(keysym),
        flag_evdev(flag) matches Some(code) ==> flags_evdev(flags.push(flag)) == flags_evdev(
            flags,
        ).push(code),
        flag_keysym(flag) is None ==> flags_keysyms(flags.push(flag)) == flags_keysyms(flags),
        flag_evdev(flag) is None ==> flags_evdev(flags.push(flag)) == flags_evdev(flags),
{
    assert(flags.push(flag).drop_last() =~= flags);
}

} // verus!
