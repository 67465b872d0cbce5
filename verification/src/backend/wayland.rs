//! The Wayland side: which codes make up a chord under the compositor's keyboard
//! options, and how the clipboard is set and read.
use crate::backend::tool;
use crate::backend::tool::Tool;
use crate::json;
use crate::keymap;
use crate::paste;
use crate::paste::{ChordView, PasteChord};
use crate::text;
use vstd::prelude::*;
use vstd::string::StrSliceExecFns;

verus! {

/// How long to wait, in milliseconds, between setting the clipboard and pasting.
pub const PASTE_SETTLE_MS: u64 = 30;

/// How long to wait, in milliseconds, between copying and reading the clipboard.
pub const COPY_SETTLE_MS: u64 = 80;

/// The physical key for a logical one: under the swap, the left Control and the
/// left Alt keys stand for each other.
pub open spec fn remapped(key: u16, swap_left_alt_control: bool) -> u16 {
    if swap_left_alt_control && key == 29 {
        56
    } else if swap_left_alt_control && key == 56 {
        29
    } else {
        key
    }
}

/// The physical key for a logical one.
pub fn remap_modifier(key: u16, swap_left_alt_control: bool) -> (r: u16)
    ensures
        r == remapped(key, swap_left_alt_control),
{
    if swap_left_alt_control {
        match key {
            29 => 56,
            56 => 29,
            _ => key,
        }
    } else {
        key
    }
}

/// The session swaps the left Alt and Control keys: it is a GNOME session, and
/// one of the quoted keyboard options asks for the swap.
pub open spec fn asks_for_swap(gnome: bool, options: Option<Seq<char>>) -> bool {
    gnome && options is Some && text::has_field(options->0, '\'', "ctrl:swap_lalt_lctl"@)
}

/// Whether the session swaps the left Alt and Control keys, by its keyboard
/// options as far as they could be read.
pub fn swaps_left_alt_control(gnome: bool, options: Option<&str>) -> (r: bool)
    ensures
        r == asks_for_swap(gnome, crate::backend::opt_text(options)),
{
    match options {
        Some(options) => gnome && text::contains_field(options, '\'', "ctrl:swap_lalt_lctl"),
        None => false,
    }
}

/// A key and the modifiers to hold with it, by code.
#[derive(Debug)]
pub struct KeyChord {
    pub key: u16,
    pub mods: Vec<u16>,
}

/// A key and the modifiers to hold with it, by code.
pub struct KeyChordView {
    pub key: u16,
    pub mods: Seq<u16>,
}

impl View for KeyChord {
    type V = KeyChordView;

    open spec fn view(&self) -> KeyChordView {
        KeyChordView { key: self.key, mods: self.mods@ }
    }
}

/// The chord of physical keys for a chord of logical ones.
pub open spec fn chord_of(key: u16, mods: Seq<u16>, swap_left_alt_control: bool) -> KeyChordView {
    KeyChordView {
        key: remapped(key, swap_left_alt_control),
        mods: Seq::new(mods.len(), |i: int| remapped(mods[i], swap_left_alt_control)),
    }
}

/// The chord of physical keys for a chord of logical ones.
pub fn chord(key: u16, mods: &[u16], swap_left_alt_control: bool) -> (r: KeyChord)
    ensures
        r@ == chord_of(key, mods@, swap_left_alt_control),
{
    let mut out: Vec<u16> = Vec::new();
    let mut i: usize = 0;
    while i < mods.len()
        invariant
            i <= mods@.len(),
            out@.len() == i,
            forall|j: int| 0 <= j < i ==> #[trigger] out@[j] == remapped(
                mods@[j],
                swap_left_alt_control,
            ),
        decreases mods@.len() - i,
    {
        out.push(remap_modifier(mods[i], swap_left_alt_control));
        i = i + 1;
    }
    let r = KeyChord { key: remap_modifier(key, swap_left_alt_control), mods: out };
    proof {
        assert(r@.mods =~= chord_of(key, mods@, swap_left_alt_control).mods);
    }
    r
}

/// What a plan for a chord says.
pub open spec fn plan_view(r: Result<KeyChord, String>) -> Result<KeyChordView, Seq<char>> {
    match r {
        Ok(chord) => Ok(chord@),
        Err(e) => Err(e@),
    }
}

/// The chord for a simulated key press, or the error text: the VK code must have
/// a code, and flags that name no modifier are left out.
pub open spec fn key_press_plan(
    vk: u32,
    flags: Seq<Seq<char>>,
    swap_left_alt_control: bool,
) -> Result<KeyChordView, Seq<char>> {
    match keymap::evdev_of(vk) {
        Some(key) => Ok(chord_of(key, keymap::flags_evdev(flags), swap_left_alt_control)),
        None => Err("unmapped VK "@ + text::decimal(vk as nat) + " (no evdev code)"@),
    }
}

/// The chord for a VK code and the modifiers that the flags name.
pub fn simulate_key_press(keycode_vk: u32, flags: &[String], swap_left_alt_control: bool) -> (r:
    Result<KeyChord, String>)
    ensures
        plan_view(r) == key_press_plan(keycode_vk, json::text_views(flags@), swap_left_alt_control),
{
    match keymap::vk_to_evdev(keycode_vk) {
        Some(key) => {
            let mods = keymap::flags_to_evdev(flags);
            Ok(chord(key, mods.as_slice(), swap_left_alt_control))
        },
        None => {
            let mut e = text::join("unmapped VK ", text::decimal_text(keycode_vk as u64).as_str());
            e.append(" (no evdev code)");
            Err(e)
        },
    }
}

/// The chord for a paste, or the error text.
pub open spec fn paste_plan(paste_chord: ChordView, swap_left_alt_control: bool) -> Result<
    KeyChordView,
    Seq<char>,
> {
    match keymap::evdev_of(paste_chord.key_vk) {
        Some(key) => Ok(
            chord_of(key, keymap::flags_evdev(paste_chord.flags), swap_left_alt_control),
        ),
        None => Err("unmapped paste key VK "@ + text::decimal(paste_chord.key_vk as nat)),
    }
}

/// The chord for a paste.
pub fn paste_keys(paste_chord: &PasteChord, swap_left_alt_control: bool) -> (r: Result<
    KeyChord,
    String,
>)
    ensures
        plan_view(r) == paste_plan(paste_chord@, swap_left_alt_control),
{
    match keymap::vk_to_evdev(paste_chord.key_vk) {
        Some(key) => {
            let mods = keymap::flags_to_evdev(paste::flag_names(paste_chord).as_slice());
            Ok(chord(key, mods.as_slice(), swap_left_alt_control))
        },
        None => Err(
            text::join(
                "unmapped paste key VK ",
                text::decimal_text(paste_chord.key_vk as u64).as_str(),
            ),
        ),
    }
}

/// The chord for Ctrl+C.
pub fn copy_keys(swap_left_alt_control: bool) -> (r: KeyChord)
    ensures
        r@ == chord_of(46, seq![29], swap_left_alt_control),
{
    let mods: Vec<u16> = vec![29];
    proof {
        assert(mods@ =~= seq![29u16]);
    }
    chord(46, mods.as_slice(), swap_left_alt_control)
}

/// A form in which the clipboard offers what it holds.
#[derive(Debug)]
pub struct Offer {
    pub mime: &'static str,
    pub data: Vec<u8>,
}

/// The kind and the bytes of each offer.
pub open spec fn offer_views(offers: Seq<Offer>) -> Seq<(Seq<char>, Seq<u8>)> {
    Seq::new(offers.len(), |i: int| (offers[i].mime@, offers[i].data@))
}

/// The forms in which a text is offered: as plain text and, where there is HTML,
/// as that too.
pub open spec fn offers_of(plain: Seq<char>, html: Option<Seq<char>>) -> Seq<
    (Seq<char>, Seq<u8>),
> {
    let first = seq![("text/plain;charset=utf-8"@, vstd::utf8::encode_utf8(plain))];
    match html {
        Some(h) => first.push(("text/html"@, vstd::utf8::encode_utf8(h))),
        None => first,
    }
}

/// The forms in which a text is offered.
pub fn clipboard_offers(plain: &str, html: Option<&str>) -> (r: Vec<Offer>)
    ensures
        offer_views(r@) == offers_of(plain@, crate::backend::opt_text(html)),
{
    let mut offers: Vec<Offer> = Vec::new();
    offers.push(Offer { mime: "text/plain;charset=utf-8", data: plain.as_bytes_vec() });
    match html {
        Some(h) => {
            offers.push(Offer { mime: "text/html", data: h.as_bytes_vec() });
        },
        None => {},
    }
    proof {
        assert(offer_views(offers@) =~= offers_of(plain@, crate::backend::opt_text(html)));
    }
    offers
}

/// The program that sets the clipboard when the offers were refused for a cause,
/// or the error text.
pub open spec fn fallback_writer(has_wl_copy: bool, cause: Seq<char>) -> Result<
    (Seq<char>, Seq<Seq<char>>),
    Seq<char>,
> {
    if has_wl_copy {
        Ok(("wl-copy"@, seq!["--type"@, "text/plain;charset=utf-8"@]))
    } else {
        Err("clipboard set failed ("@ + cause + ") and no wl-copy fallback"@)
    }
}

/// The program that sets the clipboard when the offers were refused for a cause.
pub fn clipboard_fallback(has_wl_copy: bool, cause: &str) -> (r: Result<Tool, String>)
    ensures
        tool::tool_result(r) == fallback_writer(has_wl_copy, cause@),
{
    if has_wl_copy {
        let chosen = Tool {
            program: "wl-copy",
            args: vec!["--type", "text/plain;charset=utf-8"],
        };
        proof {
            assert(tool::tool_view(chosen).1 =~= seq!["--type"@, "text/plain;charset=utf-8"@]);
        }
        Ok(chosen)
    } else {
        let mut e = text::join("clipboard set failed (", cause);
        e.append(") and no wl-copy fallback");
        Err(e)
    }
}

/// The program that reads the clipboard, or the error text.
pub open spec fn clipboard_reader(has_wl_paste: bool) -> Result<
    (Seq<char>, Seq<Seq<char>>),
    Seq<char>,
> {
    if has_wl_paste {
        Ok(("wl-paste"@, seq!["-n"@]))
    } else {
        Err("wl-paste not available"@)
    }
}

/// The program that reads the clipboard. It fails on an empty clipboard, which
/// counts as one that holds the empty text.
pub fn clipboard_get(has_wl_paste: bool) -> (r: Result<Tool, String>)
    ensures
        tool::tool_result(r) == clipboard_reader(has_wl_paste),
{
    if has_wl_paste {
        let chosen = Tool { program: "wl-paste", args: vec!["-n"] };
        proof {
            assert(tool::tool_view(chosen).1 =~= seq!["-n"@]);
        }
        Ok(chosen)
    } else {
        Err("wl-paste not available".to_owned())
    }
}

/// The program that tells the session's keyboard options.
pub fn options_tool() -> (r: Tool)
    ensures
        tool::tool_view(r) == (
            "gsettings"@,
            seq!["get"@, "org.gnome.desktop.input-sources"@, "xkb-options"@],
        ),
{
    let chosen = Tool {
        program: "gsettings",
        args: vec!["get", "org.gnome.desktop.input-sources", "xkb-options"],
    };
    proof {
        assert(tool::tool_view(chosen).1 =~= seq![
            "get"@,
            "org.gnome.desktop.input-sources"@,
            "xkb-options"@,
        ]);
    }
    chosen
}

/// Swapping twice changes nothing, no two keys are swapped to the same one, and
/// only the two swapped keys change.
pub proof fn law_swap_is_its_own_inverse(key: u16, other: u16, swap: bool)
    ensures
        remapped(remapped(key, swap), swap) == key,
        remapped(key, swap) == remapped(other, swap) ==> key == other,
        remapped(key, swap) != key ==> swap && (key == 29 || key == 56),
        remapped(key, false) == key,
{
}

/// Copying presses the C key with Control.
pub proof fn law_copy_is_control_c(swap: bool)
    ensures
        key_press_plan(67, seq!["Control"@], swap) == Ok::<KeyChordView, Seq<char>>(
            chord_of(46, seq![29], swap),
        ),
{
    keymap::lemma_control_flag();
}

/// Pasting presses the keys that a simulated press of the chord's key with its
/// flags does, whenever either can be done.
pub proof fn law_paste_is_a_key_press(paste_chord: ChordView, swap: bool)
    ensures
        paste_plan(paste_chord, swap) is Ok <==> key_press_plan(
            paste_chord.key_vk,
            paste_chord.flags,
            swap,
        ) is Ok,
        paste_plan(paste_chord, swap) is Ok ==> paste_plan(paste_chord, swap) == key_press_plan(
            paste_chord.key_vk,
            paste_chord.flags,
            swap,
        ),
{
}

/// Under the swap the left Control key stands for the left Alt key and the other way
/// round, and every other key stands for itself; without it every key does.
pub proof fn law_swapped_keys(key: u16)
    ensures
        remapped(29, true) == 56,
        remapped(56, true) == 29,
        key != 29 && key != 56 ==> remapped(key, true) == key,
        remapped(key, false) == key,
{
}

/// A chord of physical keys has the key and the modifiers of the logical one, each
/// at its place.
pub proof fn law_chord_places(key: u16, mods: Seq<u16>, swap: bool)
    ensures
        chord_of(key, mods, swap).key == remapped(key, swap),
        chord_of(key, mods, swap).mods.len() == mods.len(),
        forall|i: int|
            0 <= i < mods.len() ==> #[trigger] chord_of(key, mods, swap).mods[i] == remapped(
                mods[i],
                swap,
            ),
        chord_of(key, mods, false).key == key,
        chord_of(key, mods, false).mods == mods,
{
    assert(chord_of(key, mods, false).mods =~= mods);
}

/// What a key press and a paste press: the key's own code with the codes of the
/// flags' modifiers; a key without a code is refused in words.
pub proof fn law_planned_chords(vk: u32, flags: Seq<Seq<char>>, swap: bool)
    ensures
        keymap::evdev_of(vk) matches Some(code) ==> {
            let keys = KeyChordView {
                key: remapped(code, swap),
                mods: chord_of(code, keymap::flags_evdev(flags), swap).mods,
            };
            &&& key_press_plan(vk, flags, swap) == Ok::<KeyChordView, Seq<char>>(keys)
            &&& paste_plan(ChordView { key_vk: vk, flags }, swap) == Ok::<KeyChordView, Seq<char>>(
                keys,
            )
        },
        keymap::evdev_of(vk) is None ==> {
            &&& key_press_plan(vk, flags, swap) == Err::<KeyChordView, Seq<char>>(
                "unmapped VK "@ + text::decimal(vk as nat) + " (no evdev code)"@,
            )
            &&& paste_plan(ChordView { key_vk: vk, flags }, swap) == Err::<KeyChordView, Seq<char>>(
                "unmapped paste key VK "@ + text::decimal(vk as nat),
            )
        },
{
}

/// The clipboard offers the bytes of the text itself, as plain text, and the bytes of
/// the HTML itself where there is some; the programs around it are these.
pub proof fn law_clipboard_forms(plain: Seq<char>, html: Seq<char>, cause: Seq<char>)
    ensures
        offers_of(plain, None) == seq![
            ("text/plain;charset=utf-8"@, vstd::utf8::encode_utf8(plain)),
        ],
        offers_of(plain, Some(html)) == seq![
            ("text/plain;charset=utf-8"@, vstd::utf8::encode_utf8(plain)),
            ("text/html"@, vstd::utf8::encode_utf8(html)),
        ],
        vstd::utf8::decode_utf8(offers_of(plain, Some(html))[0].1) == plain,
        vstd::utf8::decode_utf8(offers_of(plain, Some(html))[1].1) == html,
        fallback_writer(true, cause) == Ok::<(Seq<char>, Seq<Seq<char>>), Seq<char>>(
            ("wl-copy"@, seq!["--type"@, "text/plain;charset=utf-8"@]),
        ),
        fallback_writer(false, cause) == Err::<(Seq<char>, Seq<Seq<char>>), Seq<char>>(
            "clipboard set failed ("@ + cause + ") and no wl-copy fallback"@,
        ),
        clipboard_reader(true) == Ok::<(Seq<char>, Seq<Seq<char>>), Seq<char>>(
            ("wl-paste"@, seq!["-n"@]),
        ),
        clipboard_reader(false) == Err::<(Seq<char>, Seq<Seq<char>>), Seq<char>>(
            "wl-paste not available"@,
        ),
{
    vstd::utf8::encode_utf8_decode_utf8(plain);
    vstd::utf8::encode_utf8_decode_utf8(html);
    assert(offers_of(plain, Some(html)) =~= seq![
        ("text/plain;charset=utf-8"@, vstd::utf8::encode_utf8(plain)),
        ("text/html"@, vstd::utf8::encode_utf8(html)),
    ]);
}

/// The keys are swapped exactly in a GNOME session one of whose quoted options is the
/// one that asks for it.
pub proof fn law_swap_is_asked_for(gnome: bool, options: Seq<char>)
    ensures
        !asks_for_swap(gnome, None),
        asks_for_swap(gnome, Some(options)) <==> gnome && exists|
            before: Seq<char>,
            after: Seq<char>,
        |
            {
                &&& #[trigger] (before + "ctrl:swap_lalt_lctl"@ + after) == options
                &&& before.len() == 0 || before.last() == '\''
                &&& after.len() == 0 || after[0] == '\''
            },
{
    text::law_fields(options, '\'', "ctrl:swap_lalt_lctl"@);
    reveal_strlit("ctrl:swap_lalt_lctl");
}

/// What chords, plans and offers say is what they hold.
pub proof fn law_chord_views(chord: KeyChord, e: String, offers: Seq<Offer>)
    ensures
        chord@.key == chord.key,
        chord@.mods == chord.mods@,
        plan_view(Ok(chord)) == Ok::<KeyChordView, Seq<char>>(chord@),
        plan_view(Err(e)) == Err::<KeyChordView, Seq<char>>(e@),
        offer_views(offers).len() == offers.len(),
        forall|i: int|
            0 <= i < offers.len() ==> (#[trigger] offer_views(offers)[i]).0 == offers[i].mime@
                && offer_views(offers)[i].1 == offers[i].data@,
{
}

/// The waits around the clipboard.
pub proof fn law_wayland_waits()
    ensures
        PASTE_SETTLE_MS == 30,
        COPY_SETTLE_MS == 80,
{
}

} // verus!
