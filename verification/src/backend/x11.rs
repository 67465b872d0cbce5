//! The X11 side: what window properties say, which key codes make up a chord,
//! and which program handles the clipboard.
use crate::backend::{ActiveApp, ActiveAppView, RunningApp, RunningAppView};
use crate::backend;
use crate::backend::tool;
use crate::backend::tool::Tool;
use crate::bytes;
use crate::json;
use crate::keymap;
use crate::paste;
use crate::paste::{ChordView, PasteChord};
use crate::text;
use std::collections::HashMap;
use vstd::prelude::*;
use x11rb::protocol::xproto::GetPropertyReply;

verus! {

broadcast use vstd::std_specs::hash::group_hash_axioms;

/// The event types of a synthetic key press and release.
pub const KEY_PRESS: u8 = 2;

pub const KEY_RELEASE: u8 = 3;

/// How long to wait, in milliseconds, between setting the clipboard and pasting.
pub const PASTE_SETTLE_MS: u64 = 20;

/// How long to wait, in milliseconds, between copying and reading the clipboard.
pub const COPY_SETTLE_MS: u64 = 60;

/// The number that four bytes make, the low one first.
pub open spec fn low_first(value: Seq<u8>, at: int) -> int {
    value[at] + 0x100 * value[at + 1] + 0x1_0000 * value[at + 2] + 0x100_0000 * value[at + 3]
}

/// The number that four bytes make, the high one first.
pub open spec fn high_first(value: Seq<u8>, at: int) -> int {
    0x100_0000 * value[at] + 0x1_0000 * value[at + 1] + 0x100 * value[at + 2] + value[at + 3]
}

/// `GetPropertyReply::value32` of x11rb, on a reply with the given format and
/// value: numbers come back exactly when the format is 32, one for every four
/// bytes, and bytes left over are dropped. The numbers are in the byte order of
/// the machine, all in the same one; which of the two it is is not stated.
#[verifier::external_body]
pub(crate) fn value32(format: u8, value: Vec<u8>) -> (r: Option<Vec<u32>>)
    ensures
        r is Some <==> format == 32,
        r matches Some(numbers) ==> {
            &&& numbers@.len() == value@.len() / 4
            &&& {
                ||| forall|i: int|
                    0 <= i < numbers@.len() ==> #[trigger] numbers@[i] == low_first(value@, 4 * i)
                ||| forall|i: int|
                    0 <= i < numbers@.len() ==> #[trigger] numbers@[i] == high_first(value@, 4 * i)
            }
        },
{
    let reply = GetPropertyReply { format, value, ..Default::default() };
    let numbers = match reply.value32() {
        Some(numbers) => Some(numbers.collect()),
        None => None,
    };
    numbers
}

/// The numbers are what this machine reads from a property with the format and
/// the value.
pub closed spec fn reads_as(format: u8, value: Vec<u8>, numbers: Option<Vec<u32>>) -> bool {
    call_ensures(value32, (format, value), numbers)
}

/// The numbers of a property, or none.
pub open spec fn all_of(numbers: Option<Vec<u32>>) -> Seq<u32> {
    match numbers {
        Some(n) => n@,
        None => Seq::empty(),
    }
}

/// The first of the numbers of a property.
pub open spec fn first_of(numbers: Option<Vec<u32>>) -> Option<u32> {
    if all_of(numbers).len() > 0 {
        Some(all_of(numbers)[0])
    } else {
        None
    }
}

/// The window that a number names; zero names none.
pub open spec fn window_of(number: Option<u32>) -> Option<u32> {
    match number {
        Some(n) => if n != 0 {
            Some(n)
        } else {
            None
        },
        None => None,
    }
}

/// The first of the numbers of a property.
pub fn first_number(numbers: &Option<Vec<u32>>) -> (r: Option<u32>)
    ensures
        r == first_of(*numbers),
{
    match numbers {
        Some(n) => if n.len() > 0 {
            Some(n[0])
        } else {
            None
        },
        None => None,
    }
}

/// The window that a number names; zero names none.
pub fn window_number(number: Option<u32>) -> (r: Option<u32>)
    ensures
        r == window_of(number),
{
    match number {
        Some(n) => if n != 0 {
            Some(n)
        } else {
            None
        },
        None => None,
    }
}

/// The number that a property holds, such as a process number: the first of those
/// that this machine reads from it.
pub fn property_number(format: u8, value: Vec<u8>) -> (r: Option<u32>)
    ensures
        exists|numbers: Option<Vec<u32>>| #[trigger]
            reads_as(format, value, numbers) && r == first_of(numbers),
        r is Some <==> format == 32 && value@.len() >= 4,
        r matches Some(n) ==> n == low_first(value@, 0) || n == high_first(value@, 0),
{
    let ghost data = value;
    let numbers = value32(format, value);
    proof {
        assert(reads_as(format, data, numbers));
        if numbers is Some && numbers->0@.len() > 0 {
            assert(numbers->0@[0] == low_first(data@, 4 * 0int) || numbers->0@[0] == high_first(
                data@,
                4 * 0int,
            ));
        }
    }
    first_number(&numbers)
}

/// The window that a property names, if it names one.
pub fn property_window(format: u8, value: Vec<u8>) -> (r: Option<u32>)
    ensures
        exists|numbers: Option<Vec<u32>>| #[trigger]
            reads_as(format, value, numbers) && r == window_of(first_of(numbers)),
        r is Some <==> format == 32 && value@.len() >= 4 && (value@[0] != 0 || value@[1] != 0
            || value@[2] != 0 || value@[3] != 0),
        r matches Some(n) ==> n == low_first(value@, 0) || n == high_first(value@, 0),
{
    window_number(property_number(format, value))
}

/// The windows that a property lists, in order: the numbers that this machine
/// reads from it.
pub fn property_windows(format: u8, value: Vec<u8>) -> (r: Vec<u32>)
    ensures
        exists|numbers: Option<Vec<u32>>| #[trigger]
            reads_as(format, value, numbers) && r@ == all_of(numbers),
        r@.len() == (if format == 32 {
            value@.len() as int / 4
        } else {
            0
        }),
        ({
            ||| forall|i: int| 0 <= i < r@.len() ==> #[trigger] r@[i] == low_first(value@, 4 * i)
            ||| forall|i: int| 0 <= i < r@.len() ==> #[trigger] r@[i] == high_first(value@, 4 * i)
        }),
{
    let ghost data = value;
    let numbers = value32(format, value);
    proof {
        assert(reads_as(format, data, numbers));
    }
    match numbers {
        Some(windows) => windows,
        None => Vec::new(),
    }
}

/// The properties of a window that were read; `None` for those that were not.
#[derive(Debug)]
pub struct WindowProperties {
    pub wm_class: Option<Vec<u8>>,
    pub net_wm_name: Option<Vec<u8>>,
    pub wm_name: Option<Vec<u8>>,
}

/// The bytes of a property that was read.
pub open spec fn property(p: Option<Vec<u8>>) -> Option<Seq<u8>> {
    match p {
        Some(v) => Some(v@),
        None => None,
    }
}

/// The instance and the class that a class property holds: two texts, each
/// closed by a zero byte. A missing class is the instance.
pub open spec fn class_names(wm_class: Option<Seq<u8>>) -> (Seq<char>, Seq<char>) {
    match wm_class {
        Some(b) => {
            let instance = bytes::text_or_nothing(bytes::first_piece(b));
            if bytes::second_piece(b).len() > 0 {
                (instance, bytes::text_or_nothing(bytes::second_piece(b)))
            } else {
                (instance, instance)
            }
        },
        None => (Seq::empty(), Seq::empty()),
    }
}

/// The instance and the class of a window.
pub fn window_class(wm_class: &Option<Vec<u8>>) -> (r: (String, String))
    ensures
        (r.0@, r.1@) == class_names(property(*wm_class)),
{
    match wm_class {
        Some(b) => {
            let (instance, class) = bytes::two_pieces(b.as_slice());
            match class {
                Some(class) => (instance, class),
                None => {
                    let class = instance.clone();
                    (instance, class)
                },
            }
        },
        None => (String::new(), String::new()),
    }
}

/// The bytes that a window's title is made of: the newer property before the
/// older one, and neither if it is empty.
pub open spec fn title_bytes(
    net_wm_name: Option<Seq<u8>>,
    wm_name: Option<Seq<u8>>,
) -> Option<Seq<u8>> {
    if net_wm_name is Some && net_wm_name->0.len() > 0 {
        net_wm_name
    } else if wm_name is Some && wm_name->0.len() > 0 {
        wm_name
    } else {
        None
    }
}

/// The title that the bytes make, which may hold more than valid text.
pub open spec fn title_of(data: Option<Seq<u8>>) -> Seq<char> {
    match data {
        Some(b) => text::trim_nul(bytes::lossy(b)),
        None => Seq::empty(),
    }
}

/// The title that a text makes: without the zero characters around it.
pub fn title_text(raw: &str) -> (r: String)
    ensures
        r@ == text::trim_nul(raw@),
{
    text::to_text(&text::trimmed_nul(raw))
}

/// The title of a window.
pub fn window_title(net_wm_name: &Option<Vec<u8>>, wm_name: &Option<Vec<u8>>) -> (r: String)
    ensures
        r@ == title_of(title_bytes(property(*net_wm_name), property(*wm_name))),
        title_bytes(property(*net_wm_name), property(*wm_name)) matches Some(b)
            ==> vstd::utf8::valid_utf8(b) ==> r@ == text::trim_nul(vstd::utf8::decode_utf8(b)),
{
    match net_wm_name {
        Some(b) => {
            if b.len() > 0 {
                return title_text(bytes::lossy_text(b.as_slice()).as_str());
            }
        },
        None => {},
    }
    match wm_name {
        Some(b) => {
            if b.len() > 0 {
                return title_text(bytes::lossy_text(b.as_slice()).as_str());
            }
        },
        None => {},
    }
    String::new()
}

/// The focused application, by the class and the title of its window and the
/// name of its process. The class stands in for a process name that is not known.
pub open spec fn app_of(
    class: Seq<char>,
    title: Seq<char>,
    process: Option<Seq<char>>,
) -> ActiveAppView {
    ActiveAppView {
        app_name: if process is Some && text::trim(process->0).len() > 0 {
            text::trim(process->0)
        } else {
            class
        },
        bundle_id: class,
        window_title: title,
        url: Seq::empty(),
    }
}

/// The focused application, by the class and the title of its window and the
/// name of its process.
pub fn describe_app(class: String, title: String, process: Option<&str>) -> (r: ActiveApp)
    ensures
        r@ == app_of(class@, title@, backend::opt_text(process)),
{
    let mut app_name = class.clone();
    match process {
        Some(name) => {
            let trimmed = text::trimmed(name);
            if trimmed.len() > 0 {
                app_name = text::to_text(&trimmed);
            }
        },
        None => {},
    }
    ActiveApp { app_name, bundle_id: class, window_title: title, url: String::new() }
}

/// The focused application, by the properties of the active window, if there is
/// one, and the name of its process.
pub fn active_app(window: Option<&WindowProperties>, process: Option<&str>) -> (r: ActiveApp)
    ensures
        r@ == (match window {
            Some(w) => app_of(
                class_and_title(*w).0,
                class_and_title(*w).1,
                backend::opt_text(process),
            ),
            None => backend::blank_app(),
        }),
{
    match window {
        Some(w) => {
            let (_, class) = window_class(&w.wm_class);
            let title = window_title(&w.net_wm_name, &w.wm_name);
            describe_app(class, title, process)
        },
        None => ActiveApp::default(),
    }
}

/// The entry of a list of applications for a window.
pub open spec fn entry_of(class: Seq<char>, title: Seq<char>) -> RunningAppView {
    RunningAppView {
        bundle_id: class,
        name: if title.len() > 0 {
            title
        } else {
            class
        },
    }
}

/// The list holds an application with the class.
pub open spec fn is_listed(apps: Seq<RunningAppView>, class: Seq<char>) -> bool {
    exists|i: int| 0 <= i < apps.len() && (#[trigger] apps[i]).bundle_id == class
}

/// The list with a window's application, unless its class is empty or listed.
pub open spec fn list_with(
    apps: Seq<RunningAppView>,
    class: Seq<char>,
    title: Seq<char>,
) -> Seq<RunningAppView> {
    if class.len() == 0 || is_listed(apps, class) {
        apps
    } else {
        apps.push(entry_of(class, title))
    }
}

/// The running applications, by the classes and titles of the windows.
pub open spec fn apps_of(windows: Seq<(Seq<char>, Seq<char>)>) -> Seq<RunningAppView>
    decreases windows.len(),
{
    if windows.len() == 0 {
        Seq::empty()
    } else {
        list_with(apps_of(windows.drop_last()), windows.last().0, windows.last().1)
    }
}

/// The class and the title of a window.
pub open spec fn class_and_title(window: WindowProperties) -> (Seq<char>, Seq<char>) {
    (
        class_names(property(window.wm_class)).1,
        title_of(title_bytes(property(window.net_wm_name), property(window.wm_name))),
    )
}

/// Lists a window's application, unless its class is empty or listed already.
pub fn list_window(apps: &mut Vec<RunningApp>, class: String, title: String)
    ensures
        backend::app_views(final(apps)@) == list_with(
            backend::app_views(old(apps)@),
            class@,
            title@,
        ),
{
    let ghost before = backend::app_views(apps@);
    if class.as_str().is_empty() {
        return;
    }
    let mut i: usize = 0;
    while i < apps.len()
        invariant
            i <= apps@.len(),
            before == backend::app_views(apps@),
            *apps == *old(apps),
            forall|j: int| 0 <= j < i ==> (#[trigger] before[j]).bundle_id != class@,
        decreases apps@.len() - i,
    {
        if text::same(apps[i].bundle_id.as_str(), class.as_str()) {
            proof {
                assert(before[i as int].bundle_id == class@);
            }
            return;
        }
        i = i + 1;
    }
    let name = if title.as_str().is_empty() {
        class.clone()
    } else {
        title
    };
    apps.push(RunningApp { bundle_id: class, name });
    proof {
        assert(backend::app_views(apps@) =~= before.push(entry_of(class@, title@)));
    }
}

/// The running applications, by the properties of the windows: one for each
/// class, under the title of the first window of the class.
pub fn running_apps(windows: &Vec<WindowProperties>) -> (r: Vec<RunningApp>)
    ensures
        backend::app_views(r@) == apps_of(
            Seq::new(windows@.len(), |i: int| class_and_title(windows@[i])),
        ),
{
    let ghost all = Seq::new(windows@.len(), |i: int| class_and_title(windows@[i]));
    let mut apps: Vec<RunningApp> = Vec::new();
    proof {
        assert(backend::app_views(apps@) =~= apps_of(all.take(0)));
    }
    let mut i: usize = 0;
    while i < windows.len()
        invariant
            i <= windows@.len(),
            all == Seq::new(windows@.len(), |i: int| class_and_title(windows@[i])),
            backend::app_views(apps@) == apps_of(all.take(i as int)),
        decreases windows@.len() - i,
    {
        proof {
            assert(all.take(i + 1).drop_last() =~= all.take(i as int));
            assert(all.take(i + 1).last() == class_and_title(windows@[i as int]));
        }
        let (_, class) = window_class(&windows[i].wm_class);
        let title = window_title(&windows[i].net_wm_name, &windows[i].wm_name);
        list_window(&mut apps, class, title);
        i = i + 1;
    }
    proof {
        assert(all.take(i as int) =~= all);
    }
    apps
}

/// The number of key codes between two codes, both counted.
pub fn keycode_count(min: u8, max: u8) -> (r: u8)
    requires
        min <= max,
        max - min < 255,
    ensures
        r == max - min + 1,
{
    max - min + 1
}

/// The map gives each keysym the key code of the first place at which it stands in
/// the keyboard mapping, which has `per` keysyms for each key code from `min` on.
/// The keysym zero stands for none.
pub open spec fn is_mapped(min: u8, per: int, keysyms: Seq<u32>, map: Map<u32, u8>) -> bool {
    &&& forall|keysym: u32| #[trigger]
        map.contains_key(keysym) <==> per > 0 && keysym != 0 && keysyms.contains(keysym)
    &&& forall|at: int|
        per > 0 && 0 <= at < keysyms.len() && keysyms[at] != 0 && (forall|i: int|
            0 <= i < at ==> keysyms[i] != keysyms[at]) ==> map[#[trigger] keysyms[at]] == min + at
            / per
}

/// The key code for each keysym of the keyboard mapping. The first key code with
/// a keysym wins.
pub fn build_keysym_map(min: u8, per: u8, keysyms: &[u32]) -> (r: HashMap<u32, u8>)
    requires
        per > 0 && keysyms@.len() > 0 ==> min + (keysyms@.len() - 1) / per as int <= 255,
    ensures
        is_mapped(min, per as int, keysyms@, r@),
{
    let mut map: HashMap<u32, u8> = HashMap::new();
    if per == 0 {
        return map;
    }
    let step = per as usize;
    let mut at: usize = 0;
    while at < keysyms.len()
        invariant
            at <= keysyms@.len(),
            0 < step,
            step == per,
            keysyms@.len() > 0 ==> min + (keysyms@.len() - 1) / per as int <= 255,
            is_mapped(min, per as int, keysyms@.take(at as int), map@),
        decreases keysyms@.len() - at,
    {
        let ghost prev = keysyms@.take(at as int);
        let ghost next = keysyms@.take(at + 1);
        let ghost before = map@;
        let keysym = keysyms[at];
        proof {
            assert(next =~= prev.push(keysym));
            assert(at as int / per as int <= (keysyms@.len() - 1) / per as int)
                by (nonlinear_arith)
                requires
                    at <= keysyms@.len() - 1,
                    per > 0,
            ;
            assert(at as int / step as int >= 0) by (nonlinear_arith)
                requires
                    step > 0,
            ;
            assert(at as int / step as int == at as int / per as int);
        }
        if keysym != 0 {
            let keycode = min + (at / step) as u8;
            if !map.contains_key(&keysym) {
                map.insert(keysym, keycode);
            }
        }
        proof {
            assert forall|k: u32| #[trigger] map@.contains_key(k) <==> k != 0 && next.contains(k) by {
                if prev.contains(k) {
                    let i = choose|i: int| 0 <= i < prev.len() && prev[i] == k;
                    assert(next[i] == k);
                }
                assert(next[at as int] == keysym);
                if next.contains(k) && k != keysym {
                    let i = choose|i: int| 0 <= i < next.len() && next[i] == k;
                    assert(prev[i] == k);
                }
            }
            assert forall|j: int|
                0 <= j < next.len() && next[j] != 0 && (forall|i: int|
                    0 <= i < j ==> next[i] != next[j]) implies map@[#[trigger] next[j]] == min + j
                / per as int by {
                if j < at {
                    assert(next[j] == prev[j]);
                    assert forall|i: int| 0 <= i < j implies prev[i] != prev[j] by {
                        assert(next[i] == prev[i]);
                    }
                    assert(before[prev[j]] == min + j / per as int);
                    assert(prev.contains(prev[j]));
                    assert(before.contains_key(prev[j]));
                } else {
                    if prev.contains(keysym) {
                        let i = choose|i: int| 0 <= i < prev.len() && prev[i] == keysym;
                        assert(next[i] == keysym);
                    }
                    assert(!before.contains_key(keysym));
                }
            }
        }
        at = at + 1;
    }
    proof {
        assert(keysyms@.take(at as int) =~= keysyms@);
    }
    map
}

/// A synthetic key press or release, by key code.
#[derive(Debug, Clone, Copy, PartialEq, Eq)]
pub struct FakeKey {
    pub keycode: u8,
    pub press: bool,
}

/// The event type of a synthetic key press or release.
pub fn fake_key_type(press: bool) -> (r: u8)
    ensures
        r == (if press {
            KEY_PRESS
        } else {
            KEY_RELEASE
        }),
{
    if press {
        KEY_PRESS
    } else {
        KEY_RELEASE
    }
}

/// The key codes of the keysyms, in order. Keysyms without one are left out.
pub open spec fn known_codes(map: Map<u32, u8>, keysyms: Seq<u32>) -> Seq<u8>
    decreases keysyms.len(),
{
    if keysyms.len() == 0 {
        Seq::empty()
    } else {
        let before = known_codes(map, keysyms.drop_last());
        if map.contains_key(keysyms.last()) {
            before.push(map[keysyms.last()])
        } else {
            before
        }
    }
}

/// The presses or releases of the key codes, in order.
pub open spec fn moves(codes: Seq<u8>, press: bool) -> Seq<FakeKey> {
    Seq::new(codes.len(), |i: int| FakeKey { keycode: codes[i], press })
}

/// The keys of a chord: the modifiers go down, the key goes down and up, and the
/// modifiers come up in reverse.
pub open spec fn chord_moves(key: u8, mods: Seq<u8>) -> Seq<FakeKey> {
    moves(mods, true) + seq![
        FakeKey { keycode: key, press: true },
        FakeKey { keycode: key, press: false },
    ] + moves(mods.reverse(), false)
}

/// The text for a keysym that no key has.
pub open spec fn no_keycode(keysym: u32) -> Seq<char> {
    "no keycode for keysym "@ + text::hex(keysym as nat)
}

/// The keys of a chord of keysyms, or the error text. The key must have a key
/// code; modifiers without one are left out.
pub open spec fn chord_plan(map: Map<u32, u8>, key: u32, mods: Seq<u32>) -> Result<
    Seq<FakeKey>,
    Seq<char>,
> {
    if map.contains_key(key) {
        Ok(chord_moves(map[key], known_codes(map, mods)))
    } else {
        Err(no_keycode(key))
    }
}

/// What a plan says.
pub open spec fn plan_view(r: Result<Vec<FakeKey>, String>) -> Result<Seq<FakeKey>, Seq<char>> {
    match r {
        Ok(keys) => Ok(keys@),
        Err(e) => Err(e@),
    }
}

/// The text for a keysym that no key has.
fn no_keycode_text(keysym: u32) -> (r: String)
    ensures
        r@ == no_keycode(keysym),
{
    text::join("no keycode for keysym ", text::hex_text(keysym as u64).as_str())
}

/// The keys to press and release for a chord of keysyms.
pub fn press_chord(map: &HashMap<u32, u8>, key_keysym: u32, mod_keysyms: &[u32]) -> (r: Result<
    Vec<FakeKey>,
    String,
>)
    ensures
        plan_view(r) == chord_plan(map@, key_keysym, mod_keysyms@),
{
    let key = match map.get(&key_keysym) {
        Some(code) => *code,
        None => {
            return Err(no_keycode_text(key_keysym));
        },
    };
    let mut mods: Vec<u8> = Vec::new();
    let mut i: usize = 0;
    while i < mod_keysyms.len()
        invariant
            i <= mod_keysyms@.len(),
            mods@ == known_codes(map@, mod_keysyms@.take(i as int)),
        decreases mod_keysyms@.len() - i,
    {
        proof {
            assert(mod_keysyms@.take(i + 1).drop_last() =~= mod_keysyms@.take(i as int));
            assert(mod_keysyms@.take(i + 1).last() == mod_keysyms@[i as int]);
        }
        match map.get(&mod_keysyms[i]) {
            Some(code) => {
                mods.push(*code);
            },
            None => {},
        }
        i = i + 1;
    }
    proof {
        assert(mod_keysyms@.take(i as int) =~= mod_keysyms@);
    }
    let mut keys: Vec<FakeKey> = Vec::new();
    let mut j: usize = 0;
    while j < mods.len()
        invariant
            j <= mods@.len(),
            keys@ == moves(mods@.take(j as int), true),
        decreases mods@.len() - j,
    {
        keys.push(FakeKey { keycode: mods[j], press: true });
        j = j + 1;
        proof {
            assert(keys@ =~= moves(mods@.take(j as int), true));
        }
    }
    proof {
        assert(mods@.take(j as int) =~= mods@);
    }
    keys.push(FakeKey { keycode: key, press: true });
    keys.push(FakeKey { keycode: key, press: false });
    let ghost tapped = keys@;
    proof {
        assert(keys@ =~= tapped + moves(mods@.reverse().take(0), false));
    }
    let mut left: usize = mods.len();
    while left > 0
        invariant
            left <= mods@.len(),
            keys@ == tapped + moves(mods@.reverse().take(mods@.len() - left), false),
        decreases left,
    {
        left = left - 1;
        keys.push(FakeKey { keycode: mods[left], press: false });
        proof {
            assert(keys@ =~= tapped + moves(mods@.reverse().take(mods@.len() - left), false));
        }
    }
    proof {
        assert(mods@.reverse().take(mods@.len() as int) =~= mods@.reverse());
        assert(keys@ =~= chord_moves(key, mods@));
    }
    Ok(keys)
}

/// The text for a VK code that has no keysym.
pub open spec fn unmapped_vk(vk: u32) -> Seq<char> {
    "unmapped VK "@ + text::decimal(vk as nat)
}

/// The key code for a VK code, or the error text.
pub open spec fn vk_keycode(map: Map<u32, u8>, vk: u32) -> Result<u8, Seq<char>> {
    match keymap::keysym_of(vk) {
        Some(keysym) => if map.contains_key(keysym) {
            Ok(map[keysym])
        } else {
            Err(no_keycode(keysym) + " (VK "@ + text::decimal(vk as nat) + ")"@)
        },
        None => Err(unmapped_vk(vk)),
    }
}

/// The key code for a VK code.
pub fn keycode_for_vk(map: &HashMap<u32, u8>, vk: u32) -> (r: Result<u8, String>)
    ensures
        (match r {
            Ok(code) => Ok(code),
            Err(e) => Err(e@),
        }) == vk_keycode(map@, vk),
{
    match keymap::vk_to_keysym(vk) {
        Some(keysym) => match map.get(&keysym) {
            Some(code) => Ok(*code),
            None => {
                let mut e = no_keycode_text(keysym);
                e.append(" (VK ");
                e.append(text::decimal_text(vk as u64).as_str());
                e.append(")");
                Err(e)
            },
        },
        None => Err(text::join("unmapped VK ", text::decimal_text(vk as u64).as_str())),
    }
}

/// The keys for a simulated key press, or the error text: the VK code must have
/// a keysym, and the keysym a key code.
pub open spec fn key_press_plan(map: Map<u32, u8>, vk: u32, flags: Seq<Seq<char>>) -> Result<
    Seq<FakeKey>,
    Seq<char>,
> {
    match vk_keycode(map, vk) {
        Ok(code) => Ok(chord_moves(code, known_codes(map, keymap::flags_keysyms(flags)))),
        Err(e) => Err(e),
    }
}

/// The keys to press and release for a VK code and the modifiers that the flags
/// name.
pub fn simulate_key_press(map: &HashMap<u32, u8>, keycode_vk: u32, flags: &[String]) -> (r: Result<
    Vec<FakeKey>,
    String,
>)
    ensures
        plan_view(r) == key_press_plan(map@, keycode_vk, json::text_views(flags@)),
{
    let mods = keymap::flags_to_keysyms(flags);
    match keycode_for_vk(map, keycode_vk) {
        Ok(_) => {},
        Err(e) => {
            return Err(e);
        },
    }
    match keymap::vk_to_keysym(keycode_vk) {
        Some(keysym) => press_chord(map, keysym, mods.as_slice()),
        None => Err(text::join("unmapped VK ", text::decimal_text(keycode_vk as u64).as_str())),
    }
}

/// The keys for a paste chord, or the error text.
pub open spec fn paste_plan(map: Map<u32, u8>, chord: ChordView) -> Result<
    Seq<FakeKey>,
    Seq<char>,
> {
    match keymap::keysym_of(chord.key_vk) {
        Some(keysym) => chord_plan(map, keysym, keymap::flags_keysyms(chord.flags)),
        None => Err("unmapped paste key VK "@ + text::decimal(chord.key_vk as nat)),
    }
}

/// The keys to press and release for a paste chord.
pub fn paste_keys(map: &HashMap<u32, u8>, chord: &PasteChord) -> (r: Result<Vec<FakeKey>, String>)
    ensures
        plan_view(r) == paste_plan(map@, chord@),
{
    match keymap::vk_to_keysym(chord.key_vk) {
        Some(keysym) => {
            let mods = keymap::flags_to_keysyms(paste::flag_names(chord).as_slice());
            press_chord(map, keysym, mods.as_slice())
        },
        None => Err(
            text::join("unmapped paste key VK ", text::decimal_text(chord.key_vk as u64).as_str()),
        ),
    }
}

/// The keys to press and release for Ctrl+C.
pub fn copy_keys(map: &HashMap<u32, u8>) -> (r: Result<Vec<FakeKey>, String>)
    ensures
        plan_view(r) == chord_plan(map@, 0x63, seq![0xffe3]),
{
    let mods: Vec<u32> = vec![0xffe3];
    proof {
        assert(mods@ =~= seq![0xffe3u32]);
    }
    press_chord(map, 0x63, mods.as_slice())
}

/// The program that sets the clipboard, or the error text: xclip before xsel.
pub open spec fn clipboard_writer(has_xclip: bool, has_xsel: bool) -> Result<
    (Seq<char>, Seq<Seq<char>>),
    Seq<char>,
> {
    if has_xclip {
        Ok(("xclip"@, seq!["-selection"@, "clipboard"@]))
    } else if has_xsel {
        Ok(("xsel"@, seq!["--clipboard"@, "--input"@]))
    } else {
        Err("no clipboard tool (xclip/xsel) available"@)
    }
}

/// The program that reads the clipboard, or the error text: xclip before xsel.
pub open spec fn clipboard_reader(has_xclip: bool, has_xsel: bool) -> Result<
    (Seq<char>, Seq<Seq<char>>),
    Seq<char>,
> {
    if has_xclip {
        Ok(("xclip"@, seq!["-selection"@, "clipboard"@, "-o"@]))
    } else if has_xsel {
        Ok(("xsel"@, seq!["--clipboard"@, "--output"@]))
    } else {
        Err("no clipboard tool (xclip/xsel) available"@)
    }
}

/// The program that sets the clipboard.
pub fn clipboard_set(has_xclip: bool, has_xsel: bool) -> (r: Result<Tool, String>)
    ensures
        tool::tool_result(r) == clipboard_writer(has_xclip, has_xsel),
{
    if has_xclip {
        let chosen = Tool { program: "xclip", args: vec!["-selection", "clipboard"] };
        proof {
            assert(tool::tool_view(chosen).1 =~= seq!["-selection"@, "clipboard"@]);
        }
        Ok(chosen)
    } else if has_xsel {
        let chosen = Tool { program: "xsel", args: vec!["--clipboard", "--input"] };
        proof {
            assert(tool::tool_view(chosen).1 =~= seq!["--clipboard"@, "--input"@]);
        }
        Ok(chosen)
    } else {
        Err("no clipboard tool (xclip/xsel) available".to_owned())
    }
}

/// The program that reads the clipboard.
pub fn clipboard_get(has_xclip: bool, has_xsel: bool) -> (r: Result<Tool, String>)
    ensures
        tool::tool_result(r) == clipboard_reader(has_xclip, has_xsel),
{
    if has_xclip {
        let chosen = Tool { program: "xclip", args: vec!["-selection", "clipboard", "-o"] };
        proof {
            assert(tool::tool_view(chosen).1 =~= seq!["-selection"@, "clipboard"@, "-o"@]);
        }
        Ok(chosen)
    } else if has_xsel {
        let chosen = Tool { program: "xsel", args: vec!["--clipboard", "--output"] };
        proof {
            assert(tool::tool_view(chosen).1 =~= seq!["--clipboard"@, "--output"@]);
        }
        Ok(chosen)
    } else {
        Err("no clipboard tool (xclip/xsel) available".to_owned())
    }
}

/// The keys that are down after the presses and releases, by key code.
pub open spec fn codes_down(before: Set<u8>, keys: Seq<FakeKey>) -> Set<u8>
    decreases keys.len(),
{
    if keys.len() == 0 {
        before
    } else {
        let rest = codes_down(before, keys.drop_last());
        if keys.last().press {
            rest.insert(keys.last().keycode)
        } else {
            rest.remove(keys.last().keycode)
        }
    }
}

proof fn lemma_codes_down_join(before: Set<u8>, first: Seq<FakeKey>, second: Seq<FakeKey>)
    ensures
        codes_down(before, first + second) == codes_down(codes_down(before, first), second),
    decreases second.len(),
{
    if second.len() == 0 {
        assert(first + second =~= first);
    } else {
        lemma_codes_down_join(before, first, second.drop_last());
        assert((first + second).drop_last() =~= first + second.drop_last());
    }
}

proof fn lemma_moves(before: Set<u8>, codes: Seq<u8>, press: bool)
    ensures
        codes_down(before, moves(codes, press)) == (if press {
            before.union(codes.to_set())
        } else {
            before.difference(codes.to_set())
        }),
    decreases codes.len(),
{
    if codes.len() == 0 {
        assert(codes.to_set() =~= Set::empty());
        assert(codes_down(before, moves(codes, press)) == before);
    } else {
        lemma_moves(before, codes.drop_last(), press);
        assert(moves(codes, press).drop_last() =~= moves(codes.drop_last(), press));
        assert(codes.to_set() =~= codes.drop_last().to_set().insert(codes.last())) by {
            assert forall|c: u8| codes.contains(c) implies codes.drop_last().contains(c) || c
                == codes.last() by {
                let i = choose|i: int| 0 <= i < codes.len() && codes[i] == c;
                if i < codes.len() - 1 {
                    assert(codes.drop_last()[i] == c);
                }
            }
            assert forall|c: u8| codes.drop_last().contains(c) implies codes.contains(c) by {
                let i = choose|i: int|
                    0 <= i < codes.drop_last().len() && codes.drop_last()[i] == c;
                assert(codes[i] == c);
            }
        }
    }
}

/// A whole chord leaves none of its keys down, and touches no other key.
pub proof fn law_chord_is_released(before: Set<u8>, key: u8, mods: Seq<u8>)
    ensures
        codes_down(before, chord_moves(key, mods)) == before.difference(mods.to_set()).remove(key),
{
    let taps = seq![
        FakeKey { keycode: key, press: true },
        FakeKey { keycode: key, press: false },
    ];
    let pressed = moves(mods, true);
    let released = moves(mods.reverse(), false);
    lemma_codes_down_join(before, pressed, taps);
    lemma_codes_down_join(before, pressed + taps, released);
    lemma_moves(before, mods, true);
    let held = before.union(mods.to_set());
    reveal_with_fuel(codes_down, 3);
    assert(taps.drop_last() =~= seq![FakeKey { keycode: key, press: true }]);
    assert(taps.drop_last().drop_last() =~= Seq::empty());
    assert(codes_down(held, taps) == held.insert(key).remove(key));
    lemma_moves(held.insert(key).remove(key), mods.reverse(), false);
    assert(mods.reverse().to_set() =~= mods.to_set()) by {
        assert forall|c: u8| mods.contains(c) implies mods.reverse().contains(c) by {
            let i = choose|i: int| 0 <= i < mods.len() && mods[i] == c;
            assert(mods.reverse()[mods.len() - 1 - i] == c);
        }
        assert forall|c: u8| mods.reverse().contains(c) implies mods.contains(c) by {
            let i = choose|i: int| 0 <= i < mods.reverse().len() && mods.reverse()[i] == c;
            assert(mods[mods.len() - 1 - i] == c);
        }
    }
    assert(codes_down(before, chord_moves(key, mods)) =~= before.difference(mods.to_set()).remove(
        key,
    ));
}

/// Copying presses the C key with Control, whenever it can be done.
pub proof fn law_copy_is_control_c(map: Map<u32, u8>)
    ensures
        chord_plan(map, 0x63, seq![0xffe3]) is Ok <==> key_press_plan(map, 67, seq!["Control"@]) is Ok,
        chord_plan(map, 0x63, seq![0xffe3]) is Ok ==> chord_plan(map, 0x63, seq![0xffe3])
            == key_press_plan(map, 67, seq!["Control"@]),
{
    keymap::lemma_control_flag();
}

/// Pasting presses the keys that a simulated press of the chord's key with its
/// flags does, whenever either can be done.
pub proof fn law_paste_is_a_key_press(map: Map<u32, u8>, chord: ChordView)
    ensures
        paste_plan(map, chord) is Ok <==> key_press_plan(map, chord.key_vk, chord.flags) is Ok,
        paste_plan(map, chord) is Ok ==> paste_plan(map, chord) == key_press_plan(
            map,
            chord.key_vk,
            chord.flags,
        ),
{
}

/// The key code found for a keysym is that of a key with the keysym, and no lower
/// key has it.
pub proof fn law_mapped_key_is_the_first(
    min: u8,
    per: int,
    keysyms: Seq<u32>,
    map: Map<u32, u8>,
    keysym: u32,
)
    requires
        is_mapped(min, per, keysyms, map),
        map.contains_key(keysym),
    ensures
        exists|at: int|
            0 <= at < keysyms.len() && #[trigger] keysyms[at] == keysym && min + at / per
                == map[keysym],
        forall|at: int|
            0 <= at < keysyms.len() && #[trigger] keysyms[at] == keysym ==> min + at / per
                >= map[keysym],
{
    let at = keysyms.index_of_first(keysym)->0;
    keysyms.index_of_first_ensures(keysym);
    assert(keysyms[at] == keysym);
    assert forall|later: int|
        0 <= later < keysyms.len() && #[trigger] keysyms[later] == keysym implies min + later / per
        >= map[keysym] by {
        assert(at <= later);
        assert(at / per <= later / per) by (nonlinear_arith)
            requires
                at <= later,
                per > 0,
        ;
    }
}

/// In a list of running applications no class is empty or occurs twice, every
/// window with a class is in the list, and each entry comes from a window.
pub proof fn law_running_apps(windows: Seq<(Seq<char>, Seq<char>)>)
    ensures
        forall|i: int, j: int|
            0 <= i < j < apps_of(windows).len() ==> (#[trigger] apps_of(windows)[i]).bundle_id != (
            #[trigger] apps_of(windows)[j]).bundle_id,
        forall|i: int|
            0 <= i < apps_of(windows).len() ==> (#[trigger] apps_of(windows)[i]).bundle_id.len() > 0,
        forall|k: int|
            0 <= k < windows.len() && (#[trigger] windows[k]).0.len() > 0 ==> is_listed(
                apps_of(windows),
                windows[k].0,
            ),
        forall|i: int|
            0 <= i < apps_of(windows).len() ==> exists|k: int|
                0 <= k < windows.len() && #[trigger] apps_of(windows)[i] == entry_of(
                    (#[trigger] windows[k]).0,
                    windows[k].1,
                ),
    decreases windows.len(),
{
    if windows.len() > 0 {
        let fewer = windows.drop_last();
        let (class, title) = windows.last();
        let before = apps_of(fewer);
        let after = apps_of(windows);
        law_running_apps(fewer);
        assert forall|k: int|
            0 <= k < windows.len() && (#[trigger] windows[k]).0.len() > 0 implies is_listed(
            after,
            windows[k].0,
        ) by {
            if k < windows.len() - 1 {
                assert(fewer[k] == windows[k]);
                let i = choose|i: int|
                    0 <= i < before.len() && (#[trigger] before[i]).bundle_id == windows[k].0;
                assert(after[i].bundle_id == windows[k].0);
            } else if after.len() > before.len() {
                assert(after[before.len() as int].bundle_id == class);
            }
        }
        assert forall|i: int| 0 <= i < after.len() implies exists|k: int|
            0 <= k < windows.len() && #[trigger] after[i] == entry_of(
                (#[trigger] windows[k]).0,
                windows[k].1,
            ) by {
            if i < before.len() {
                assert(after[i] == before[i]);
                let k = choose|k: int|
                    0 <= k < fewer.len() && #[trigger] before[i] == entry_of(
                        (#[trigger] fewer[k]).0,
                        fewer[k].1,
                    );
                assert(windows[k] == fewer[k]);
            } else {
                assert(after[i] == entry_of(
                    windows[windows.len() - 1].0,
                    windows[windows.len() - 1].1,
                ));
            }
        }
        assert forall|i: int, j: int| 0 <= i < j < after.len() implies (#[trigger] after[i]).bundle_id
            != (#[trigger] after[j]).bundle_id by {
            assert(after[i] == before[i]);
            if j < before.len() {
                assert(after[j] == before[j]);
            }
        }
    }
}

/// The list of running applications grows window by window: a window whose class is
/// empty or was there before adds nothing, and any other adds its class with its
/// title, or the class again where the title is empty.
pub proof fn law_apps_grow(
    windows: Seq<(Seq<char>, Seq<char>)>,
    class: Seq<char>,
    title: Seq<char>,
)
    ensures
        apps_of(Seq::empty()) == Seq::<RunningAppView>::empty(),
        class.len() == 0 || (exists|k: int|
            0 <= k < windows.len() && (#[trigger] windows[k]).0 == class) ==> apps_of(
            windows.push((class, title)),
        ) == apps_of(windows),
        class.len() > 0 && (forall|k: int|
            0 <= k < windows.len() ==> (#[trigger] windows[k]).0 != class) && title.len() > 0
            ==> apps_of(windows.push((class, title))) == apps_of(windows).push(
            RunningAppView { bundle_id: class, name: title },
        ),
        class.len() > 0 && (forall|k: int|
            0 <= k < windows.len() ==> (#[trigger] windows[k]).0 != class) && title.len() == 0
            ==> apps_of(windows.push((class, title))) == apps_of(windows).push(
            RunningAppView { bundle_id: class, name: class },
        ),
{
    let apps = apps_of(windows);
    assert(windows.push((class, title)).drop_last() =~= windows);
    law_running_apps(windows);
    if is_listed(apps, class) {
        let i = choose|i: int| 0 <= i < apps.len() && (#[trigger] apps[i]).bundle_id == class;
        let k = choose|k: int|
            0 <= k < windows.len() && #[trigger] apps[i] == entry_of(
                (#[trigger] windows[k]).0,
                windows[k].1,
            );
        assert(windows[k].0 == class);
    }
    if exists|k: int| 0 <= k < windows.len() && (#[trigger] windows[k]).0 == class {
        let k = choose|k: int| 0 <= k < windows.len() && (#[trigger] windows[k]).0 == class;
        if class.len() > 0 {
            assert(is_listed(apps, windows[k].0));
        }
    }
}

/// The class of a window, from the bytes of its property: two names that zero bytes
/// close are the instance and the class; a single name is both; bytes that are no
/// text, and a property that is missing, are the empty name.
pub proof fn law_window_class(instance: Seq<char>, class: Seq<char>, data: Seq<u8>)
    requires
        instance.len() > 0,
        class.len() > 0,
        forall|i: int|
            0 <= i < vstd::utf8::encode_utf8(instance).len() ==> vstd::utf8::encode_utf8(
                instance,
            )[i] != 0,
        forall|i: int|
            0 <= i < vstd::utf8::encode_utf8(class).len() ==> vstd::utf8::encode_utf8(class)[i]
                != 0,
        vstd::utf8::encode_utf8(instance).len() > 0,
        vstd::utf8::encode_utf8(class).len() > 0,
    ensures
        class_names(
            Some(
                vstd::utf8::encode_utf8(instance) + seq![0u8] + vstd::utf8::encode_utf8(class)
                    + seq![0u8],
            ),
        ) == (instance, class),
        class_names(Some(vstd::utf8::encode_utf8(instance) + seq![0u8])) == (instance, instance),
        class_names(None) == (Seq::<char>::empty(), Seq::<char>::empty()),
        class_names(Some(data)).0 == bytes::text_or_nothing(bytes::first_piece(data)),
        bytes::second_piece(data).len() > 0 ==> class_names(Some(data)).1
            == bytes::text_or_nothing(bytes::second_piece(data)),
        bytes::second_piece(data).len() == 0 ==> class_names(Some(data)).1 == class_names(
            Some(data),
        ).0,
{
    let i = vstd::utf8::encode_utf8(instance);
    let c = vstd::utf8::encode_utf8(class);
    let zero = seq![0u8];
    let none = Seq::<u8>::empty();
    bytes::law_text_is_read_back(instance, data);
    bytes::law_text_is_read_back(class, data);
    bytes::law_pieces(none, i, zero + c + zero);
    bytes::law_pieces(zero, c, zero);
    bytes::law_pieces(none, i, zero);
    bytes::law_pieces(zero, i, none);
    assert(none + i + (zero + c + zero) =~= i + zero + c + zero);
    assert(none + i + zero =~= i + zero);
}

/// The title of a window is that of the newer property if that holds any bytes, else
/// that of the older one; without both it is empty. Zero characters around it are
/// dropped and nothing else is.
pub proof fn law_window_title(
    newer: Seq<u8>,
    older: Option<Seq<u8>>,
    missing: Option<Seq<u8>>,
    text: Seq<u8>,
)
    requires
        newer.len() > 0,
        text.len() > 0,
        missing is None || missing->0.len() == 0,
    ensures
        title_of(title_bytes(Some(newer), older)) == text::trim_nul(bytes::lossy(newer)),
        title_of(title_bytes(missing, Some(text))) == text::trim_nul(bytes::lossy(text)),
        title_of(title_bytes(missing, None)) == Seq::<char>::empty(),
        title_of(title_bytes(missing, missing)) == Seq::<char>::empty(),
{
}

/// The focused application has the class as its identifier, the title as its title
/// and no address; its name is that of the process, without white space around it,
/// or the class where the process is not known by name.
pub proof fn law_focused_app(class: Seq<char>, title: Seq<char>, process: Option<Seq<char>>)
    ensures
        ({
            let app = app_of(class, title, process);
            &&& app.bundle_id == class
            &&& app.window_title == title
            &&& app.url.len() == 0
            &&& process is None ==> app.app_name == class
            &&& process matches Some(name) ==> (text::trim(name).len() > 0 ==> app.app_name
                == text::trim(name)) && (text::trim(name).len() == 0 ==> app.app_name == class)
        }),
{
}

/// The class and the title of a window are read from its own properties.
pub proof fn law_window_properties(window: WindowProperties, data: Vec<u8>)
    ensures
        class_and_title(window).0 == class_names(property(window.wm_class)).1,
        class_and_title(window).1 == title_of(
            title_bytes(property(window.net_wm_name), property(window.wm_name)),
        ),
        property(Some(data)) == Some(data@),
        property(None) is None,
{
}

/// A keysym has a key code exactly when it is not zero and stands in the mapping, and
/// the mapping has keysyms at all.
pub proof fn law_mapped_keysyms(
    min: u8,
    per: int,
    keysyms: Seq<u32>,
    map: Map<u32, u8>,
    keysym: u32,
)
    requires
        is_mapped(min, per, keysyms, map),
    ensures
        map.contains_key(keysym) <==> per > 0 && keysym != 0 && exists|at: int|
            0 <= at < keysyms.len() && #[trigger] keysyms[at] == keysym,
        forall|at: int|
            per > 0 && keysym != 0 && 0 <= at < keysyms.len() && #[trigger] keysyms[at] == keysym
                && (forall|i: int| 0 <= i < at ==> keysyms[i] != keysym) ==> map[keysym] == min + at
                / per,
{
    if per > 0 && keysym != 0 && keysyms.contains(keysym) {
        assert(map.contains_key(keysym));
    }
}

/// The keys of a chord, place by place: the known modifiers go down in order, the key
/// goes down and up, and the modifiers come up from the last to the first. A key
/// without a key code is refused in words.
pub proof fn law_chord_keys(map: Map<u32, u8>, key: u32, mods: Seq<u32>)
    ensures
        !map.contains_key(key) ==> chord_plan(map, key, mods) == Err::<Seq<FakeKey>, Seq<char>>(
            "no keycode for keysym "@ + text::hex(key as nat),
        ),
        map.contains_key(key) ==> {
            let codes = known_codes(map, mods);
            let n = codes.len() as int;
            &&& chord_plan(map, key, mods) matches Ok(keys) && {
                &&& keys.len() == 2 * n + 2
                &&& forall|i: int|
                    0 <= i < n ==> #[trigger] keys[i] == (FakeKey { keycode: codes[i], press: true })
                &&& keys[n] == (FakeKey { keycode: map[key], press: true })
                &&& keys[n + 1] == (FakeKey { keycode: map[key], press: false })
                &&& forall|i: int|
                    n + 2 <= i < 2 * n + 2 ==> #[trigger] keys[i] == (FakeKey {
                        keycode: codes[2 * n + 1 - i],
                        press: false,
                    })
            }
        },
{
    if map.contains_key(key) {
        let codes = known_codes(map, mods);
        let n = codes.len() as int;
        let keys = chord_moves(map[key], codes);
        assert forall|i: int| n + 2 <= i < 2 * n + 2 implies #[trigger] keys[i] == (FakeKey {
            keycode: codes[2 * n + 1 - i],
            press: false,
        }) by {
            assert(keys[i] == moves(codes.reverse(), false)[i - n - 2]);
            assert(codes.reverse()[i - n - 2] == codes[n - 1 - (i - n - 2)]);
        }
    }
}

/// The key codes of keysyms come in the order of the keysyms; a keysym without a key
/// code adds none.
pub proof fn law_known_codes(map: Map<u32, u8>, keysyms: Seq<u32>, keysym: u32)
    ensures
        known_codes(map, Seq::empty()) == Seq::<u8>::empty(),
        map.contains_key(keysym) ==> known_codes(map, keysyms.push(keysym)) == known_codes(
            map,
            keysyms,
        ).push(map[keysym]),
        !map.contains_key(keysym) ==> known_codes(map, keysyms.push(keysym)) == known_codes(
            map,
            keysyms,
        ),
{
    assert(keysyms.push(keysym).drop_last() =~= keysyms);
}

/// What a key press and a paste press: the chord of the key's keysym and the flags'
/// modifiers. What stands in the way is told in words.
pub proof fn law_planned_keys(map: Map<u32, u8>, vk: u32, flags: Seq<Seq<char>>)
    ensures
        ({
            let press = key_press_plan(map, vk, flags);
            let paste = paste_plan(map, ChordView { key_vk: vk, flags });
            let mods = keymap::flags_keysyms(flags);
            match keymap::keysym_of(vk) {
                Some(keysym) => {
                    &&& map.contains_key(keysym) ==> press == chord_plan(map, keysym, mods) && paste
                        == chord_plan(map, keysym, mods)
                    &&& !map.contains_key(keysym) ==> {
                        &&& press == Err::<Seq<FakeKey>, Seq<char>>(
                            "no keycode for keysym "@ + text::hex(keysym as nat) + " (VK "@
                                + text::decimal(vk as nat) + ")"@,
                        )
                        &&& paste == Err::<Seq<FakeKey>, Seq<char>>(
                            "no keycode for keysym "@ + text::hex(keysym as nat),
                        )
                    }
                },
                None => {
                    &&& press == Err::<Seq<FakeKey>, Seq<char>>(
                        "unmapped VK "@ + text::decimal(vk as nat),
                    )
                    &&& paste == Err::<Seq<FakeKey>, Seq<char>>(
                        "unmapped paste key VK "@ + text::decimal(vk as nat),
                    )
                },
            }
        }),
        keymap::keysym_of(vk) matches Some(keysym) ==> (map.contains_key(keysym) ==> vk_keycode(
            map,
            vk,
        ) == Ok::<u8, Seq<char>>(map[keysym])),
{
}

/// The programs that set and read the clipboard: xclip where there is one, else xsel,
/// each with its own arguments; without both it cannot be done.
pub proof fn law_clipboard_tools(has_xsel: bool)
    ensures
        clipboard_writer(true, has_xsel) == Ok::<(Seq<char>, Seq<Seq<char>>), Seq<char>>(
            ("xclip"@, seq!["-selection"@, "clipboard"@]),
        ),
        clipboard_writer(false, true) == Ok::<(Seq<char>, Seq<Seq<char>>), Seq<char>>(
            ("xsel"@, seq!["--clipboard"@, "--input"@]),
        ),
        clipboard_reader(true, has_xsel) == Ok::<(Seq<char>, Seq<Seq<char>>), Seq<char>>(
            ("xclip"@, seq!["-selection"@, "clipboard"@, "-o"@]),
        ),
        clipboard_reader(false, true) == Ok::<(Seq<char>, Seq<Seq<char>>), Seq<char>>(
            ("xsel"@, seq!["--clipboard"@, "--output"@]),
        ),
        clipboard_writer(false, false) == Err::<(Seq<char>, Seq<Seq<char>>), Seq<char>>(
            "no clipboard tool (xclip/xsel) available"@,
        ),
        clipboard_reader(false, false) == Err::<(Seq<char>, Seq<Seq<char>>), Seq<char>>(
            "no clipboard tool (xclip/xsel) available"@,
        ),
{
}

/// The numbers of a property: each of four bytes in either order, the first of them,
/// and the window that is not zero.
pub proof fn law_property_numbers(a: u8, b: u8, c: u8, d: u8, numbers: Vec<u32>, n: u32)
    ensures
        low_first(seq![a, b, c, d], 0) == a + 256 * b + 65536 * c + 16777216 * d,
        high_first(seq![a, b, c, d], 0) == 16777216 * a + 65536 * b + 256 * c + d,
        all_of(Some(numbers)) == numbers@,
        all_of(None) == Seq::<u32>::empty(),
        first_of(None) is None,
        numbers@.len() > 0 ==> first_of(Some(numbers)) == Some(numbers@[0]),
        numbers@.len() == 0 ==> first_of(Some(numbers)) is None,
        window_of(Some(0)) is None,
        n != 0 ==> window_of(Some(n)) == Some(n),
        window_of(None) is None,
{
}

/// What a plan says is the keys or the error's text that it holds.
pub proof fn law_plan_views(keys: Vec<FakeKey>, e: String)
    ensures
        plan_view(Ok(keys)) == Ok::<Seq<FakeKey>, Seq<char>>(keys@),
        plan_view(Err(e)) == Err::<Seq<FakeKey>, Seq<char>>(e@),
{
}

/// The event types of synthetic keys, and the waits around the clipboard.
pub proof fn law_x11_numbers()
    ensures
        KEY_PRESS == 2,
        KEY_RELEASE == 3,
        PASTE_SETTLE_MS == 20,
        COPY_SETTLE_MS == 60,
{
}

/// What this machine reads from a property is what the outside function gave for it.
pub(crate) proof fn law_reads_are_given(format: u8, value: Vec<u8>, numbers: Option<Vec<u32>>)
    ensures
        reads_as(format, value, numbers) <==> call_ensures(value32, (format, value), numbers),
{
}

} // verus!
