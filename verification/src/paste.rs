//! Which key chord pastes: Ctrl+V, or Ctrl+Shift+V where the focused application
//! is a terminal emulator, unless the user's setting names one of the two.
use crate::json;
use crate::keymap;
use crate::text;
use vstd::prelude::*;

verus! {

/// The environment variable that forces a chord.
pub const PASTE_KEYS_ENV: &'static str = "WISPR_LINUX_HELPER_PASTE_KEYS";

/// A key, as a VK code, and the names of the modifiers held with it.
#[derive(Debug, Clone, Copy, PartialEq, Eq)]
pub struct PasteChord {
    pub key_vk: u32,
    pub flags: &'static [&'static str],
}

/// What a paste chord says: its key and the names of its modifiers.
pub struct ChordView {
    pub key_vk: u32,
    pub flags: Seq<Seq<char>>,
}

impl View for PasteChord {
    type V = ChordView;

    open spec fn view(&self) -> ChordView {
        ChordView {
            key_vk: self.key_vk,
            flags: Seq::new(self.flags@.len(), |i: int| self.flags@[i]@),
        }
    }
}

/// The chord Ctrl+V.
pub open spec fn ctrl_v_chord() -> ChordView {
    ChordView { key_vk: 86, flags: seq!["Control"@] }
}

/// The chord Ctrl+Shift+V.
pub open spec fn ctrl_shift_v_chord() -> ChordView {
    ChordView { key_vk: 86, flags: seq!["Control"@, "Shift"@] }
}

/// Whether the application that a paste goes to is a terminal emulator, as far
/// as it was looked at. Nothing is known of it at first.
#[derive(Debug, Clone, Copy, PartialEq, Eq)]
pub struct PasteFocus {
    pub focused_is_terminal: bool,
}

impl PasteFocus {
    /// No application was looked at yet.
    pub fn new() -> (r: PasteFocus)
        ensures
            !r.focused_is_terminal,
    {
        PasteFocus { focused_is_terminal: false }
    }
}

/// The chord that a setting names, or the error text: `ctrl+v` and
/// `ctrl+shift+v` are understood, in any case and with white space around them.
pub open spec fn named_chord(value: Seq<char>) -> Result<ChordView, Seq<char>> {
    let name = text::lower(text::trim(value));
    if name == ""@ || name == "ctrl+v"@ {
        Ok(ctrl_v_chord())
    } else if name == "ctrl+shift+v"@ {
        Ok(ctrl_shift_v_chord())
    } else {
        Err(PASTE_KEYS_ENV@ + " supports ctrl+v and ctrl+shift+v"@)
    }
}

/// The chord for a setting and a focused application: a setting that is not
/// blank decides alone.
pub open spec fn resolved_chord(setting: Seq<char>, focused_is_terminal: bool) -> Result<
    ChordView,
    Seq<char>,
> {
    if text::trim(setting).len() > 0 {
        named_chord(setting)
    } else if focused_is_terminal {
        Ok(ctrl_shift_v_chord())
    } else {
        Ok(ctrl_v_chord())
    }
}

/// What a result says: the view of the chord, or the error text.
pub open spec fn chord_result(r: Result<PasteChord, String>) -> Result<ChordView, Seq<char>> {
    match r {
        Ok(c) => Ok(c@),
        Err(e) => Err(e@),
    }
}

/// Names that mark a terminal emulator wherever they stand.
pub open spec fn terminal_parts() -> Seq<Seq<char>> {
    seq![
        "kitty"@,
        "alacritty"@,
        "ghostty"@,
        "wezterm"@,
        "konsole"@,
        "foot"@,
        "gnome-terminal"@,
        "kgx"@,
        "xterm"@,
        "urxvt"@,
        "terminator"@,
        "tilix"@,
        "yakuake"@,
        "guake"@,
        "terminology"@,
        "contour"@,
        "blackbox"@,
        "tabby"@,
        "extraterm"@,
        "cool-retro-term"@,
        "sakura"@,
        "qterminal"@,
        "lxterminal"@,
        "xfce4-terminal"@,
        "mate-terminal"@,
        "warp"@,
        "waveterm"@,
        "rio"@,
        "hyper"@,
    ]
}

/// Names that mark a terminal emulator only if they are the whole name.
pub open spec fn terminal_names() -> Seq<Seq<char>> {
    seq![
        "st"@,
        "st-256color"@,
        "term"@,
        "eterm"@,
        "aterm"@,
    ]
}

/// The name without `suffix` at its end.
pub open spec fn without_suffix(name: Seq<char>, suffix: Seq<char>) -> Seq<char> {
    if text::stands_at(name, suffix, name.len() - suffix.len()) {
        name.take(name.len() - suffix.len())
    } else {
        name
    }
}

/// An application with this name and identifier is a terminal emulator: one of
/// the distinctive names stands in either, or one of the short names is the
/// whole name or the whole identifier. Case does not matter, nor a `.desktop`
/// behind the identifier.
pub open spec fn is_terminal(app_name: Seq<char>, bundle_id: Seq<char>) -> bool {
    let name = text::lower(app_name);
    let id = text::lower(bundle_id);
    let id_base = without_suffix(id, ".desktop"@);
    ||| exists|i: int|
        0 <= i < terminal_parts().len() && (text::has_part(name, #[trigger] terminal_parts()[i])
            || text::has_part(id, terminal_parts()[i]))
    ||| exists|i: int|
        0 <= i < terminal_names().len() && (name == #[trigger] terminal_names()[i] || id_base
            == terminal_names()[i])
}

/// Ctrl+V.
pub fn ctrl_v() -> (r: PasteChord)
    ensures
        r@ == ctrl_v_chord(),
{
    let r = PasteChord { key_vk: 86, flags: &["Control"] };
    proof {
        assert(r@.flags =~= ctrl_v_chord().flags);
    }
    r
}

/// Ctrl+Shift+V.
pub fn ctrl_shift_v() -> (r: PasteChord)
    ensures
        r@ == ctrl_shift_v_chord(),
{
    let r = PasteChord { key_vk: 86, flags: &["Control", "Shift"] };
    proof {
        assert(r@.flags =~= ctrl_shift_v_chord().flags);
    }
    r
}

/// The names of the modifiers of a chord.
pub fn flag_names(chord: &PasteChord) -> (r: Vec<String>)
    ensures
        json::text_views(r@) == chord@.flags,
{
    let mut out: Vec<String> = Vec::new();
    let mut i: usize = 0;
    while i < chord.flags.len()
        invariant
            i <= chord.flags@.len(),
            json::text_views(out@) == chord@.flags.take(i as int),
        decreases chord.flags@.len() - i,
    {
        let name: &str = chord.flags[i];
        let ghost before = out@;
        out.push(name.to_owned());
        proof {
            assert(chord@.flags[i as int] == name@);
            assert(json::text_views(out@) =~= json::text_views(before).push(name@));
            assert(json::text_views(out@) =~= chord@.flags.take(i + 1));
        }
        i = i + 1;
    }
    proof {
        assert(chord@.flags.take(i as int) =~= chord@.flags);
    }
    out
}

/// Records whether the focused application is a terminal emulator.
pub fn set_focused_is_terminal(focus: &mut PasteFocus, is_terminal: bool)
    ensures
        final(focus).focused_is_terminal == is_terminal,
{
    focus.focused_is_terminal = is_terminal;
}

/// The chord for this paste. `setting` is the value of `PASTE_KEYS_ENV`, if it
/// is set to readable text.
pub fn chord(setting: Option<&str>, focus: &PasteFocus) -> (r: Result<PasteChord, String>)
    ensures
        chord_result(r) == resolved_chord(
            match setting {
                Some(s) => s@,
                None => Seq::empty(),
            },
            focus.focused_is_terminal,
        ),
{
    match setting {
        Some(s) => resolve(s, focus.focused_is_terminal),
        None => {
            proof {
                reveal_strlit("");
                assert(""@ =~= Seq::<char>::empty());
            }
            resolve("", focus.focused_is_terminal)
        },
    }
}

/// The chord for a setting and a focused application.
pub fn resolve(env_value: &str, focused_is_terminal: bool) -> (r: Result<PasteChord, String>)
    ensures
        chord_result(r) == resolved_chord(env_value@, focused_is_terminal),
{
    if text::trimmed(env_value).len() > 0 {
        return parse(env_value);
    }
    if focused_is_terminal {
        Ok(ctrl_shift_v())
    } else {
        Ok(ctrl_v())
    }
}

/// The chord that a setting names.
pub fn parse(value: &str) -> (r: Result<PasteChord, String>)
    ensures
        chord_result(r) == named_chord(value@),
{
    let trimmed = text::to_text(&text::trimmed(value));
    let name = text::to_text(&text::to_lower(trimmed.as_str()));
    if text::same(name.as_str(), "") || text::same(name.as_str(), "ctrl+v") {
        Ok(ctrl_v())
    } else if text::same(name.as_str(), "ctrl+shift+v") {
        Ok(ctrl_shift_v())
    } else {
        Err(text::join(PASTE_KEYS_ENV, " supports ctrl+v and ctrl+shift+v"))
    }
}

/// Whether one of the names stands in `a` or in `b`.
fn any_part(names: &Vec<&str>, a: &Vec<char>, b: &Vec<char>) -> (r: bool)
    ensures
        r == exists|i: int|
            0 <= i < names@.len() && (text::has_part(a@, #[trigger] names@[i]@) || text::has_part(
                b@,
                names@[i]@,
            )),
{
    let mut k: usize = 0;
    while k < names.len()
        invariant
            k <= names@.len(),
            forall|i: int|
                0 <= i < k ==> !text::has_part(a@, #[trigger] names@[i]@) && !text::has_part(
                    b@,
                    names@[i]@,
                ),
        decreases names@.len() - k,
    {
        let part = text::to_chars(names[k]);
        if text::contains(a, &part) || text::contains(b, &part) {
            return true;
        }
        k = k + 1;
    }
    false
}

/// Whether one of the names is `a` or `b`.
fn any_whole(names: &Vec<&str>, a: &str, b: &str) -> (r: bool)
    ensures
        r == exists|i: int|
            0 <= i < names@.len() && (a@ == #[trigger] names@[i]@ || b@ == names@[i]@),
{
    let mut k: usize = 0;
    while k < names.len()
        invariant
            k <= names@.len(),
            forall|i: int| 0 <= i < k ==> a@ != #[trigger] names@[i]@ && b@ != names@[i]@,
        decreases names@.len() - k,
    {
        if text::same(a, names[k]) || text::same(b, names[k]) {
            return true;
        }
        k = k + 1;
    }
    false
}

/// Whether an application with this name and identifier is a terminal emulator.
pub fn looks_like_terminal(app_name: &str, bundle_id: &str) -> (r: bool)
    ensures
        r == is_terminal(app_name@, bundle_id@),
{
    let parts: Vec<&str> = vec![
        "kitty",
        "alacritty",
        "ghostty",
        "wezterm",
        "konsole",
        "foot",
        "gnome-terminal",
        "kgx",
        "xterm",
        "urxvt",
        "terminator",
        "tilix",
        "yakuake",
        "guake",
        "terminology",
        "contour",
        "blackbox",
        "tabby",
        "extraterm",
        "cool-retro-term",
        "sakura",
        "qterminal",
        "lxterminal",
        "xfce4-terminal",
        "mate-terminal",
        "warp",
        "waveterm",
        "rio",
        "hyper",
    ];
    let names: Vec<&str> = vec![
        "st",
        "st-256color",
        "term",
        "eterm",
        "aterm",
    ];
    proof {
        assert(terminal_parts().len() == parts@.len());
        assert forall|i: int| 0 <= i < parts@.len() implies #[trigger] parts@[i]@
            == terminal_parts()[i] by {}
        assert forall|i: int| 0 <= i < names@.len() implies #[trigger] names@[i]@
            == terminal_names()[i] by {}
    }
    let name = text::to_lower(app_name);
    let id = text::to_lower(bundle_id);
    let suffix = text::to_chars(".desktop");
    let id_base = if id.len() >= suffix.len() && text::stands_here(
        &id,
        &suffix,
        id.len() - suffix.len(),
    ) {
        text::slice(&id, 0, id.len() - suffix.len())
    } else {
        text::slice(&id, 0, id.len())
    };
    let ghost full_id = id@;
    proof {
        assert(full_id.subrange(0, full_id.len() as int) =~= full_id);
        assert(id_base@ =~= without_suffix(full_id, ".desktop"@));
    }
    let found_part = any_part(&parts, &name, &id);
    let found_name = any_whole(
        &names,
        text::to_text(&name).as_str(),
        text::to_text(&id_base).as_str(),
    );
    proof {
        assert(found_part == exists|i: int|
            0 <= i < terminal_parts().len() && (text::has_part(
                name@,
                #[trigger] terminal_parts()[i],
            ) || text::has_part(id@, terminal_parts()[i]))) by {
            if found_part {
                let i = choose|i: int|
                    0 <= i < parts@.len() && (text::has_part(name@, #[trigger] parts@[i]@)
                        || text::has_part(id@, parts@[i]@));
                assert(terminal_parts()[i] == parts@[i]@);
            } else {
                assert forall|i: int| 0 <= i < terminal_parts().len() implies !text::has_part(
                    name@,
                    #[trigger] terminal_parts()[i],
                ) && !text::has_part(id@, terminal_parts()[i]) by {
                    assert(terminal_parts()[i] == parts@[i]@);
                }
            }
        }
        assert(found_name == exists|i: int|
            0 <= i < terminal_names().len() && (name@ == #[trigger] terminal_names()[i] || id_base@
                == terminal_names()[i])) by {
            if found_name {
                let i = choose|i: int|
                    0 <= i < names@.len() && (name@ == #[trigger] names@[i]@ || id_base@
                        == names@[i]@);
                assert(terminal_names()[i] == names@[i]@);
            } else {
                assert forall|i: int| 0 <= i < terminal_names().len() implies name@
                    != #[trigger] terminal_names()[i] && id_base@ != terminal_names()[i] by {
                    assert(terminal_names()[i] == names@[i]@);
                }
            }
        }
    }
    found_part || found_name
}

/// A setting that is not blank decides alone: which application is focused
/// makes no difference.
pub proof fn law_setting_wins(setting: Seq<char>)
    requires
        text::trim(setting).len() > 0,
    ensures
        resolved_chord(setting, true) == resolved_chord(setting, false),
        resolved_chord(setting, true) == named_chord(setting),
{
}

/// With a blank setting a paste never fails: terminals get Ctrl+Shift+V and
/// every other application keeps Ctrl+V.
pub proof fn law_blank_setting_follows_focus(setting: Seq<char>)
    requires
        text::trim(setting).len() == 0,
    ensures
        resolved_chord(setting, true) == Ok::<ChordView, Seq<char>>(ctrl_shift_v_chord()),
        resolved_chord(setting, false) == Ok::<ChordView, Seq<char>>(ctrl_v_chord()),
{
}

/// Every chord that can come out is made of keys that both kinds of injection
/// can press.
pub proof fn law_chords_can_be_pressed(setting: Seq<char>, focused_is_terminal: bool)
    ensures
        resolved_chord(setting, focused_is_terminal) matches Ok(c) ==> {
            &&& keymap::keysym_of(c.key_vk) is Some
            &&& keymap::evdev_of(c.key_vk) is Some
            &&& forall|i: int|
                0 <= i < c.flags.len() ==> keymap::flag_keysym(#[trigger] c.flags[i]) is Some
                    && keymap::flag_evdev(c.flags[i]) is Some
        },
{
}

/// Whether an application counts as a terminal does not depend on the case of
/// its name or identifier.
pub proof fn law_case_does_not_matter(app_name: Seq<char>, bundle_id: Seq<char>)
    ensures
        is_terminal(app_name, bundle_id) == is_terminal(
            text::lower(app_name),
            text::lower(bundle_id),
        ),
        is_terminal(app_name, bundle_id) == is_terminal(
            text::upper(app_name),
            text::upper(bundle_id),
        ),
{
    assert(text::lower(text::lower(app_name)) =~= text::lower(app_name));
    assert(text::lower(text::lower(bundle_id)) =~= text::lower(bundle_id));
    assert(text::lower(text::upper(app_name)) =~= text::lower(app_name));
    assert(text::lower(text::upper(bundle_id)) =~= text::lower(bundle_id));
}

/// The chord that a setting names, read without its white space and with capitals
/// made small: Ctrl+V, Ctrl+Shift+V, or an error that says what is understood.
pub proof fn law_settings(setting: Seq<char>, focused_is_terminal: bool)
    ensures
        ({
            let name = text::lower(text::trim(setting));
            let chord = resolved_chord(setting, focused_is_terminal);
            &&& name == "ctrl+v"@ ==> chord == Ok::<ChordView, Seq<char>>(
                ChordView { key_vk: 86, flags: seq!["Control"@] },
            )
            &&& name == "ctrl+shift+v"@ ==> chord == Ok::<ChordView, Seq<char>>(
                ChordView { key_vk: 86, flags: seq!["Control"@, "Shift"@] },
            )
            &&& name.len() == 0 && focused_is_terminal ==> chord == Ok::<ChordView, Seq<char>>(
                ChordView { key_vk: 86, flags: seq!["Control"@, "Shift"@] },
            )
            &&& name.len() == 0 && !focused_is_terminal ==> chord == Ok::<ChordView, Seq<char>>(
                ChordView { key_vk: 86, flags: seq!["Control"@] },
            )
            &&& name.len() > 0 && name != "ctrl+v"@ && name != "ctrl+shift+v"@ ==> chord == Err::<
                ChordView,
                Seq<char>,
            >("WISPR_LINUX_HELPER_PASTE_KEYS supports ctrl+v and ctrl+shift+v"@)
        }),
{
    reveal_strlit("");
    reveal_strlit("ctrl+v");
    reveal_strlit("ctrl+shift+v");
    assert("ctrl+v"@.len() == 6 && "ctrl+shift+v"@.len() == 12 && ""@.len() == 0);
    reveal_strlit("WISPR_LINUX_HELPER_PASTE_KEYS");
    reveal_strlit(" supports ctrl+v and ctrl+shift+v");
    reveal_strlit("WISPR_LINUX_HELPER_PASTE_KEYS supports ctrl+v and ctrl+shift+v");
    assert(PASTE_KEYS_ENV@ + " supports ctrl+v and ctrl+shift+v"@
        =~= "WISPR_LINUX_HELPER_PASTE_KEYS supports ctrl+v and ctrl+shift+v"@);
}

/// The names of terminal emulators, one by one: those that mark an application
/// wherever they stand in its name or identifier, and those that must be the whole
/// of one of the two, a `.desktop` aside. Nothing else marks a terminal emulator.
pub proof fn law_terminals(app_name: Seq<char>, bundle_id: Seq<char>)
    ensures
        ({
            let name = text::lower(app_name);
            let id = text::lower(bundle_id);
            is_terminal(app_name, bundle_id) <==> {
                ||| text::has_part(name, "kitty"@) || text::has_part(id, "kitty"@)
                ||| text::has_part(name, "alacritty"@) || text::has_part(id, "alacritty"@)
                ||| text::has_part(name, "ghostty"@) || text::has_part(id, "ghostty"@)
                ||| text::has_part(name, "wezterm"@) || text::has_part(id, "wezterm"@)
                ||| text::has_part(name, "konsole"@) || text::has_part(id, "konsole"@)
                ||| text::has_part(name, "foot"@) || text::has_part(id, "foot"@)
                ||| text::has_part(name, "gnome-terminal"@) || text::has_part(id, "gnome-terminal"@)
                ||| text::has_part(name, "kgx"@) || text::has_part(id, "kgx"@)
                ||| text::has_part(name, "xterm"@) || text::has_part(id, "xterm"@)
                ||| text::has_part(name, "urxvt"@) || text::has_part(id, "urxvt"@)
                ||| text::has_part(name, "terminator"@) || text::has_part(id, "terminator"@)
                ||| text::has_part(name, "tilix"@) || text::has_part(id, "tilix"@)
                ||| text::has_part(name, "yakuake"@) || text::has_part(id, "yakuake"@)
                ||| text::has_part(name, "guake"@) || text::has_part(id, "guake"@)
                ||| text::has_part(name, "terminology"@) || text::has_part(id, "terminology"@)
                ||| text::has_part(name, "contour"@) || text::has_part(id, "contour"@)
                ||| text::has_part(name, "blackbox"@) || text::has_part(id, "blackbox"@)
                ||| text::has_part(name, "tabby"@) || text::has_part(id, "tabby"@)
                ||| text::has_part(name, "extraterm"@) || text::has_part(id, "extraterm"@)
                ||| text::has_part(name, "cool-retro-term"@) || text::has_part(id, "cool-retro-term"@)
                ||| text::has_part(name, "sakura"@) || text::has_part(id, "sakura"@)
                ||| text::has_part(name, "qterminal"@) || text::has_part(id, "qterminal"@)
                ||| text::has_part(name, "lxterminal"@) || text::has_part(id, "lxterminal"@)
                ||| text::has_part(name, "xfce4-terminal"@) || text::has_part(id, "xfce4-terminal"@)
                ||| text::has_part(name, "mate-terminal"@) || text::has_part(id, "mate-terminal"@)
                ||| text::has_part(name, "warp"@) || text::has_part(id, "warp"@)
                ||| text::has_part(name, "waveterm"@) || text::has_part(id, "waveterm"@)
                ||| text::has_part(name, "rio"@) || text::has_part(id, "rio"@)
                ||| text::has_part(name, "hyper"@) || text::has_part(id, "hyper"@)
                ||| name == "st"@ || id == "st"@ || id == "st"@ + ".desktop"@
                ||| name == "st-256color"@ || id == "st-256color"@ || id == "st-256color"@ + ".desktop"@
                ||| name == "term"@ || id == "term"@ || id == "term"@ + ".desktop"@
                ||| name == "eterm"@ || id == "eterm"@ || id == "eterm"@ + ".desktop"@
                ||| name == "aterm"@ || id == "aterm"@ || id == "aterm"@ + ".desktop"@
            }
        }),
{
    let name = text::lower(app_name);
    let id = text::lower(bundle_id);
    let base = without_suffix(id, ".desktop"@);
    let parts = terminal_parts();
    let names = terminal_names();
    reveal_strlit(".desktop");
    assert(".desktop"@.len() == 8);
    reveal_strlit("st");
    lemma_suffix(id, "st"@);
    reveal_strlit("st-256color");
    lemma_suffix(id, "st-256color"@);
    reveal_strlit("term");
    lemma_suffix(id, "term"@);
    reveal_strlit("eterm");
    lemma_suffix(id, "eterm"@);
    reveal_strlit("aterm");
    lemma_suffix(id, "aterm"@);
    if is_terminal(app_name, bundle_id) {
        if exists|i: int|
            0 <= i < parts.len() && (text::has_part(name, #[trigger] parts[i]) || text::has_part(
                id,
                parts[i],
            )) {
            let i = choose|i: int|
                0 <= i < parts.len() && (text::has_part(name, #[trigger] parts[i])
                    || text::has_part(id, parts[i]));
            lemma_part_names(i);
        } else {
            let i = choose|i: int|
                0 <= i < names.len() && (name == #[trigger] names[i] || base == names[i]);
            lemma_whole_names(i);
        }
    }
    assert(parts[0] == "kitty"@);
    assert(parts[1] == "alacritty"@);
    assert(parts[2] == "ghostty"@);
    assert(parts[3] == "wezterm"@);
    assert(parts[4] == "konsole"@);
    assert(parts[5] == "foot"@);
    assert(parts[6] == "gnome-terminal"@);
    assert(parts[7] == "kgx"@);
    assert(parts[8] == "xterm"@);
    assert(parts[9] == "urxvt"@);
    assert(parts[10] == "terminator"@);
    assert(parts[11] == "tilix"@);
    assert(parts[12] == "yakuake"@);
    assert(parts[13] == "guake"@);
    assert(parts[14] == "terminology"@);
    assert(parts[15] == "contour"@);
    assert(parts[16] == "blackbox"@);
    assert(parts[17] == "tabby"@);
    assert(parts[18] == "extraterm"@);
    assert(parts[19] == "cool-retro-term"@);
    assert(parts[20] == "sakura"@);
    assert(parts[21] == "qterminal"@);
    assert(parts[22] == "lxterminal"@);
    assert(parts[23] == "xfce4-terminal"@);
    assert(parts[24] == "mate-terminal"@);
    assert(parts[25] == "warp"@);
    assert(parts[26] == "waveterm"@);
    assert(parts[27] == "rio"@);
    assert(parts[28] == "hyper"@);
    assert(names[0] == "st"@);
    assert(names[1] == "st-256color"@);
    assert(names[2] == "term"@);
    assert(names[3] == "eterm"@);
    assert(names[4] == "aterm"@);
}

/// An identifier without its suffix is a name exactly when it is the name, with or
/// without the suffix. The name itself does not end in the suffix.
proof fn lemma_suffix(id: Seq<char>, name: Seq<char>)
    requires
        name.len() < 8 || name[name.len() - 1] != 'p',
    ensures
        without_suffix(id, ".desktop"@) == name <==> id == name || id == name + ".desktop"@,
{
    reveal_strlit(".desktop");
    let suffix = ".desktop"@;
    assert(suffix.len() == 8 && suffix[7] == 'p');
    if text::stands_at(id, suffix, id.len() - suffix.len()) {
        let base = id.take(id.len() - 8);
        assert(id =~= base + id.subrange(id.len() - 8, id.len() as int));
        assert(id =~= base + suffix);
        assert(id[id.len() - 1] == suffix[7]);
        if id == name + suffix {
            assert(base =~= name);
        }
    }
    if id == name + suffix {
        assert(id.subrange(id.len() - 8, id.len() as int) =~= suffix);
        assert(text::stands_at(id, suffix, id.len() - suffix.len()));
        assert(id.take(id.len() - 8) =~= name);
    }
}

proof fn lemma_part_names(i: int)
    requires
        0 <= i < terminal_parts().len(),
    ensures
        terminal_parts()[i] == "kitty"@
            || terminal_parts()[i] == "alacritty"@
            || terminal_parts()[i] == "ghostty"@
            || terminal_parts()[i] == "wezterm"@
            || terminal_parts()[i] == "konsole"@
            || terminal_parts()[i] == "foot"@
            || terminal_parts()[i] == "gnome-terminal"@
            || terminal_parts()[i] == "kgx"@
            || terminal_parts()[i] == "xterm"@
            || terminal_parts()[i] == "urxvt"@
            || terminal_parts()[i] == "terminator"@
            || terminal_parts()[i] == "tilix"@
            || terminal_parts()[i] == "yakuake"@
            || terminal_parts()[i] == "guake"@
            || terminal_parts()[i] == "terminology"@
            || terminal_parts()[i] == "contour"@
            || terminal_parts()[i] == "blackbox"@
            || terminal_parts()[i] == "tabby"@
            || terminal_parts()[i] == "extraterm"@
            || terminal_parts()[i] == "cool-retro-term"@
            || terminal_parts()[i] == "sakura"@
            || terminal_parts()[i] == "qterminal"@
            || terminal_parts()[i] == "lxterminal"@
            || terminal_parts()[i] == "xfce4-terminal"@
            || terminal_parts()[i] == "mate-terminal"@
            || terminal_parts()[i] == "warp"@
            || terminal_parts()[i] == "waveterm"@
            || terminal_parts()[i] == "rio"@
            || terminal_parts()[i] == "hyper"@,
{
}

proof fn lemma_whole_names(i: int)
    requires
        0 <= i < terminal_names().len(),
    ensures
        terminal_names()[i] == "st"@
            || terminal_names()[i] == "st-256color"@
            || terminal_names()[i] == "term"@
            || terminal_names()[i] == "eterm"@
            || terminal_names()[i] == "aterm"@,
{
}

/// What a chord and a result say is what they hold: the key, and the names of the
/// modifiers in order.
pub proof fn law_chord_views(chord: PasteChord, e: String)
    ensures
        chord@.key_vk == chord.key_vk,
        chord@.flags.len() == chord.flags@.len(),
        forall|i: int| 0 <= i < chord.flags@.len() ==> #[trigger] chord@.flags[i] == chord.flags@[i]@,
        chord_result(Ok(chord)) == Ok::<ChordView, Seq<char>>(chord@),
        chord_result(Err(e)) == Err::<ChordView, Seq<char>>(e@),
        ctrl_v_chord() == (ChordView { key_vk: 86, flags: seq!["Control"@] }),
        ctrl_shift_v_chord() == (ChordView { key_vk: 86, flags: seq!["Control"@, "Shift"@] }),
{
}

} // verus!
