//! Watching keyboards: which devices to read, what their bytes say, and which
//! keys are down.
use crate::bytes;
use crate::event::{decode_event, event_size, InputEvent, Layout, BITMAP_LEN, EV_KEY, KEY_MAX};
use crate::event;
use crate::keymap;
use crate::text;
use std::collections::HashSet;
use vstd::prelude::*;
use vstd::string::StringSliceAdditionalSpecFns;

verus! {

broadcast use vstd::std_specs::hash::group_hash_axioms;

/// The value of a key event when the key goes down.
pub const KEY_PRESS: i32 = 1;

/// The value of a key event when the key goes up.
pub const KEY_RELEASE: i32 = 0;

/// The codes of two keys that every keyboard has, and no mouse or gamepad.
pub const KEY_A: u16 = 30;

pub const KEY_Z: u16 = 44;

/// The bytes of a device's name.
pub const NAME_LEN: usize = 80;

/// The name of the helper's own virtual keyboard.
pub const OWN_INJECTION_NAME: &'static str = "Wispr Flow Linux Helper";

/// The request number of a read from the input device group.
pub open spec fn read_request(nr: u64, size: u64) -> u64 {
    (2u64 << 30) | (size << 16) | (0x45u64 << 8) | nr
}

/// The request number of a read from the input device group: two bits of
/// direction, the size of what is read, the group and the number in it.
pub fn ioc_read(nr: u64, size: u64) -> (r: u64)
    ensures
        r == read_request(nr, size),
{
    (2u64 << 30) | (size << 16) | (0x45u64 << 8) | nr
}

/// The request for the bitmap of the keys that are down.
pub fn eviocgkey() -> (r: u64)
    ensures
        r == read_request(0x18, BITMAP_LEN as u64),
        r == 0x8060_4518,
{
    proof {
        assert((2u64 << 30) | (96u64 << 16) | (0x45u64 << 8) | 0x18u64 == 0x8060_4518u64)
            by (bit_vector);
    }
    ioc_read(0x18, BITMAP_LEN as u64)
}

/// The request for the bitmap of the keys that a device has.
pub fn eviocgbit_key() -> (r: u64)
    ensures
        r == read_request(0x21, BITMAP_LEN as u64),
        r == 0x8060_4521,
{
    proof {
        assert((2u64 << 30) | (96u64 << 16) | (0x45u64 << 8) | 0x21u64 == 0x8060_4521u64)
            by (bit_vector);
    }
    ioc_read(0x20 + EV_KEY as u64, BITMAP_LEN as u64)
}

/// The request for a device's name.
pub fn eviocgname() -> (r: u64)
    ensures
        r == read_request(0x06, NAME_LEN as u64),
        r == 0x8050_4506,
{
    proof {
        assert((2u64 << 30) | (80u64 << 16) | (0x45u64 << 8) | 0x06u64 == 0x8050_4506u64)
            by (bit_vector);
    }
    ioc_read(0x06, NAME_LEN as u64)
}

/// The bit for a key code is set. Bits beyond the end of the bitmap are not.
pub open spec fn has_bit(bitmap: Seq<u8>, code: u16) -> bool {
    code / 8 < bitmap.len() && (bitmap[code as int / 8] >> ((code % 8) as u8)) & 1 == 1
}

/// Whether the bit for a key code is set.
pub fn bit_set(bitmap: &[u8], code: u16) -> (r: bool)
    ensures
        r == has_bit(bitmap@, code),
{
    let byte = (code / 8) as usize;
    byte < bitmap.len() && (bitmap[byte] >> ((code % 8) as u8)) & 1 == 1
}

/// A file name of an input device node: it begins with `event`.
pub open spec fn is_node_name(name: Option<&str>) -> bool {
    name matches Some(n) && text::stands_at(n@, "event"@, 0)
}

/// Whether a file is an input device node, by its name. A name that is no text
/// is `None`.
pub fn is_event_node(name: Option<&str>) -> (r: bool)
    ensures
        r == is_node_name(name),
{
    match name {
        Some(n) => text::starts_with(n, "event"),
        None => false,
    }
}

/// A device is a keyboard: it has ordinary letter keys.
pub open spec fn has_letters(key_bits: Option<&[u8]>) -> bool {
    key_bits matches Some(bits) && has_bit(bits@, KEY_A) && has_bit(bits@, KEY_Z)
}

/// Whether a device is a keyboard, by the bitmap of the keys that it has. `None`
/// means that the device did not tell.
pub fn is_keyboard(key_bits: Option<&[u8]>) -> (r: bool)
    ensures
        r == has_letters(key_bits),
{
    match key_bits {
        Some(bits) => bit_set(bits, KEY_A) && bit_set(bits, KEY_Z),
        None => false,
    }
}

/// A device goes by the name of the helper's own virtual keyboard.
pub open spec fn has_own_name(name: Option<&[u8]>) -> bool {
    name matches Some(n) && bytes::until_zero(n@) == OWN_INJECTION_NAME.spec_bytes()
}

/// Whether a device is a virtual keyboard of the helper, by its name as the
/// kernel hands it out: up to the first zero byte. `None` means that the device
/// did not tell.
pub fn is_own_injection_device(name: Option<&[u8]>) -> (r: bool)
    ensures
        r == has_own_name(name),
{
    match name {
        Some(n) => {
            let own = OWN_INJECTION_NAME.as_bytes();
            let end = bytes::next_zero(n, 0);
            proof {
                assert(n@.skip(0) =~= n@);
                assert(n@.subrange(0, end as int) =~= n@.take(end as int));
            }
            if end != own.len() {
                return false;
            }
            let mut i: usize = 0;
            while i < end
                invariant
                    i <= end <= n@.len(),
                    end == own@.len(),
                    own@ == OWN_INJECTION_NAME.spec_bytes(),
                    bytes::until_zero(n@) == n@.take(end as int),
                    name == Some(n),
                    forall|j: int| 0 <= j < i ==> n@[j] == own@[j],
                decreases end - i,
            {
                if n[i] != own[i] {
                    proof {
                        assert(n@.take(end as int)[i as int] != own@[i as int]);
                    }
                    return false;
                }
                i = i + 1;
            }
            proof {
                assert(n@.take(end as int) =~= own@);
            }
            true
        },
        None => false,
    }
}

/// Whether to read a device: keyboards, but not the helper's own, whose keys
/// nobody pressed.
pub fn is_capture_device(key_bits: Option<&[u8]>, name: Option<&[u8]>) -> (r: bool)
    ensures
        r == (has_letters(key_bits) && !has_own_name(name)),
{
    is_keyboard(key_bits) && !is_own_injection_device(name)
}

/// A key going down or up, as a VK code.
#[derive(Debug, Clone, Copy, PartialEq, Eq)]
pub struct KeyChange {
    pub vk: u32,
    pub press: bool,
}

/// The key change that an event reports: only presses and releases of keys that
/// have a VK code count, not their repetition.
pub open spec fn key_change(event: InputEvent) -> Option<KeyChange> {
    if event.type_ == EV_KEY && (event.value == KEY_PRESS || event.value == KEY_RELEASE) {
        match keymap::vk_of(event.code) {
            Some(vk) => Some(KeyChange { vk, press: event.value == KEY_PRESS }),
            None => None,
        }
    } else {
        None
    }
}

/// The key changes in the first `count` events of the bytes.
pub open spec fn changes_in(data: Seq<u8>, count: nat, layout: Layout) -> Seq<KeyChange>
    decreases count,
{
    if count == 0 {
        Seq::empty()
    } else {
        let before = changes_in(data, (count - 1) as nat, layout);
        match key_change(event::event_at(data, (count - 1) * event_size(layout), layout)) {
            Some(change) => before.push(change),
            None => before,
        }
    }
}

/// The key change that an event reports.
pub fn change_of(event: InputEvent) -> (r: Option<KeyChange>)
    ensures
        r == key_change(event),
{
    if event.type_ != EV_KEY {
        return None;
    }
    let press = if event.value == KEY_PRESS {
        true
    } else if event.value == KEY_RELEASE {
        false
    } else {
        return None;
    };
    match keymap::evdev_to_vk(event.code) {
        Some(vk) => Some(KeyChange { vk, press }),
        None => None,
    }
}

/// The key changes in the first `n` bytes that a read put into `buf`. A part of
/// an event at the end is left out.
pub fn decode_keys(buf: &[u8], n: usize, layout: Layout) -> (r: Vec<KeyChange>)
    requires
        n <= buf@.len(),
    ensures
        r@ == changes_in(buf@, (n as int / event_size(layout)) as nat, layout),
{
    let mut out: Vec<KeyChange> = Vec::new();
    let mut off: usize = 0;
    let ghost mut count: nat = 0;
    while n - off >= 8 && n - off - 8 >= layout.time_size
        invariant
            off == count * event_size(layout),
            off <= n <= buf@.len(),
            out@ == changes_in(buf@, count, layout),
        decreases n - off,
    {
        let event = decode_event(buf, off, layout);
        match change_of(event) {
            Some(change) => {
                out.push(change);
            },
            None => {},
        }
        off = off + 8 + layout.time_size;
        proof {
            let size = event_size(layout);
            assert((count + 1) * size == count * size + size) by (nonlinear_arith);
            count = count + 1;
        }
    }
    proof {
        let size = event_size(layout);
        vstd::arithmetic::div_mod::lemma_fundamental_div_mod_converse(
            n as int,
            size,
            count as int,
            n - off,
        );
    }
    out
}

/// The key with the VK code is down on one of the devices, by the bitmaps of
/// the keys that are down.
pub open spec fn is_held(bitmaps: Seq<Vec<u8>>, vk: u32) -> bool {
    exists|d: int, code: u16|
        #![trigger bitmaps[d], keymap::vk_of(code)]
        0 <= d < bitmaps.len() && code <= KEY_MAX && has_bit(bitmaps[d]@, code) && keymap::vk_of(
            code,
        ) == Some(vk)
}

/// The VK codes of the keys that are down on any of the devices, by the bitmaps
/// of the keys that are down.
pub fn held_vks(bitmaps: &Vec<Vec<u8>>) -> (r: HashSet<u32>)
    ensures
        r@ == Set::new(|vk: u32| is_held(bitmaps@, vk)),
{
    let mut held: HashSet<u32> = HashSet::new();
    let mut d: usize = 0;
    while d < bitmaps.len()
        invariant
            d <= bitmaps@.len(),
            forall|vk: u32| #[trigger] held@.contains(vk) <==> is_held(bitmaps@.take(d as int), vk),
        decreases bitmaps@.len() - d,
    {
        let ghost before = held@;
        let mut code: u16 = 0;
        while code <= KEY_MAX
            invariant
                code <= KEY_MAX + 1,
                d < bitmaps@.len(),
                forall|vk: u32| #[trigger] held@.contains(vk) <==> before.contains(vk) || exists|c: u16|
                    c < code && has_bit(bitmaps@[d as int]@, c) && #[trigger] keymap::vk_of(c)
                        == Some(vk),
            decreases KEY_MAX + 1 - code,
        {
            if bit_set(bitmaps[d].as_slice(), code) {
                match keymap::evdev_to_vk(code) {
                    Some(vk) => {
                        held.insert(vk);
                        proof {
                            assert(keymap::vk_of(code) == Some(vk));
                        }
                    },
                    None => {},
                }
            }
            code = code + 1;
        }
        proof {
            assert forall|vk: u32| #[trigger] held@.contains(vk) <==> is_held(
                bitmaps@.take(d + 1),
                vk,
            ) by {
                let next = bitmaps@.take(d + 1);
                let prev = bitmaps@.take(d as int);
                if before.contains(vk) {
                    let (e, c) = choose|e: int, c: u16|
                        #![trigger prev[e], keymap::vk_of(c)]
                        0 <= e < prev.len() && c <= KEY_MAX && has_bit(prev[e]@, c)
                            && keymap::vk_of(c) == Some(vk);
                    assert(next[e] == prev[e]);
                }
                if is_held(next, vk) {
                    let (e, c) = choose|e: int, c: u16|
                        #![trigger next[e], keymap::vk_of(c)]
                        0 <= e < next.len() && c <= KEY_MAX && has_bit(next[e]@, c)
                            && keymap::vk_of(c) == Some(vk);
                    if e < d {
                        assert(prev[e] == next[e]);
                    }
                }
                assert(next[d as int] == bitmaps@[d as int]);
            }
        }
        d = d + 1;
    }
    proof {
        assert(bitmaps@.take(d as int) =~= bitmaps@);
        assert(held@ =~= Set::new(|vk: u32| is_held(bitmaps@, vk)));
    }
    held
}

/// The paths of the devices that are being read.
pub struct Watched {
    paths: Vec<String>,
}

impl View for Watched {
    type V = Set<Seq<char>>;

    closed spec fn view(&self) -> Set<Seq<char>> {
        Set::new(|p: Seq<char>| exists|i: int| 0 <= i < self.paths@.len() && self.paths@[i]@ == p)
    }
}

impl Watched {
    /// No path occurs twice.
    #[verifier::type_invariant]
    spec fn distinct(self) -> bool {
        forall|i: int, j: int|
            0 <= i < j < self.paths@.len() ==> (#[trigger] self.paths@[i])@ != (
            #[trigger] self.paths@[j])@
    }

    /// No device is being read.
    pub fn new() -> (r: Watched)
        ensures
            r@ == Set::<Seq<char>>::empty(),
    {
        let r = Watched { paths: Vec::new() };
        proof {
            assert(r@ =~= Set::empty());
        }
        r
    }

    /// Where the path stands in the list, or the length of the list.
    fn find(paths: &Vec<String>, path: &str) -> (r: usize)
        ensures
            r <= paths@.len(),
            r < paths@.len() ==> paths@[r as int]@ == path@,
            forall|i: int| 0 <= i < r ==> #[trigger] paths@[i]@ != path@,
    {
        let mut i: usize = 0;
        while i < paths.len()
            invariant
                i <= paths@.len(),
                forall|j: int| 0 <= j < i ==> #[trigger] paths@[j]@ != path@,
            decreases paths@.len() - i,
        {
            if text::same(paths[i].as_str(), path) {
                return i;
            }
            i = i + 1;
        }
        i
    }

    /// Whether the device at the path is being read.
    pub fn contains(&self, path: &str) -> (r: bool)
        ensures
            r == self@.contains(path@),
    {
        Watched::find(&self.paths, path) < self.paths.len()
    }

    /// Notes that the device at the path is being read.
    pub fn claim(&mut self, path: &str)
        ensures
            final(self)@ == old(self)@.insert(path@),
    {
        proof {
            use_type_invariant(&*self);
        }
        let ghost before = *self;
        if Watched::find(&self.paths, path) < self.paths.len() {
            proof {
                assert(self@ =~= before@.insert(path@));
            }
            return;
        }
        let mut paths: Vec<String> = Vec::new();
        std::mem::swap(&mut paths, &mut self.paths);
        paths.push(path.to_owned());
        self.paths = paths;
        proof {
            assert forall|p: Seq<char>| self@.contains(p) <==> before@.insert(path@).contains(p) by {
                if before@.contains(p) {
                    let i = choose|i: int|
                        0 <= i < before.paths@.len() && before.paths@[i]@ == p;
                    assert(self.paths@[i]@ == p);
                }
                if p == path@ {
                    assert(self.paths@[self.paths@.len() - 1]@ == p);
                }
            }
            assert(self@ =~= before@.insert(path@));
        }
    }

    /// Notes that the device at the path is no longer being read.
    pub fn release(&mut self, path: &str)
        ensures
            final(self)@ == old(self)@.remove(path@),
    {
        proof {
            use_type_invariant(&*self);
        }
        let ghost before = *self;
        let at = Watched::find(&self.paths, path);
        if at == self.paths.len() {
            proof {
                assert(self@ =~= before@.remove(path@));
            }
            return;
        }
        let mut paths: Vec<String> = Vec::new();
        std::mem::swap(&mut paths, &mut self.paths);
        paths.remove(at);
        self.paths = paths;
        proof {
            assert forall|p: Seq<char>| self@.contains(p) <==> before@.remove(path@).contains(p) by {
                if self@.contains(p) {
                    let i = choose|i: int| 0 <= i < self.paths@.len() && self.paths@[i]@ == p;
                    if i < at {
                        assert(before.paths@[i]@ == p);
                    } else {
                        assert(before.paths@[i + 1]@ == p);
                    }
                }
                if before@.contains(p) && p != path@ {
                    let i = choose|i: int|
                        0 <= i < before.paths@.len() && before.paths@[i]@ == p;
                    if i < at {
                        assert(self.paths@[i]@ == p);
                    } else {
                        assert(self.paths@[i - 1]@ == p);
                    }
                }
            }
            assert(self@ =~= before@.remove(path@));
        }
    }
}

/// A scan opens the node at the path: it is an input device node that is not
/// being read already.
pub open spec fn opens(known: Set<Seq<char>>, name: Option<&str>, path: Seq<char>) -> bool {
    is_node_name(name) && !known.contains(path)
}

/// Whether a scan opens the node at the path.
pub fn should_open(known: &Watched, name: Option<&str>, path: &str) -> (r: bool)
    ensures
        r == opens(known@, name, path@),
{
    is_event_node(name) && !known.contains(path)
}

/// Settles a claim once it is known whether its reader started. A reader that
/// did not start gives the path back. Counts the readers that started.
pub fn settle_claim(watched: &mut Watched, path: &str, spawned: bool, started: usize) -> (r: usize)
    requires
        started < usize::MAX,
    ensures
        spawned ==> r == started + 1 && final(watched)@ == old(watched)@,
        !spawned ==> r == started && final(watched)@ == old(watched)@.remove(path@),
{
    if spawned {
        started + 1
    } else {
        watched.release(path);
        started
    }
}

/// A node is opened once: a scan passes over a claimed path, and opens it again
/// once it was released, whether its reader ended or never started. Other paths
/// are not touched by either.
pub proof fn law_nodes_are_read_once(
    known: Set<Seq<char>>,
    name: Option<&str>,
    path: Seq<char>,
    other: Seq<char>,
)
    requires
        other != path,
    ensures
        !opens(known.insert(path), name, path),
        opens(known.insert(path).remove(path), name, path) == is_node_name(name),
        opens(known.insert(path), name, other) == opens(known, name, other),
        opens(known.remove(path), name, other) == opens(known, name, other),
{
}

/// A key counts as held exactly when it has a Linux code whose bit is set on one
/// of the devices.
pub proof fn law_held_by_code(bitmaps: Seq<Vec<u8>>, vk: u32)
    ensures
        is_held(bitmaps, vk) <==> (keymap::evdev_of(vk) matches Some(code) && exists|d: int|
            0 <= d < bitmaps.len() && has_bit((#[trigger] bitmaps[d])@, code)),
{
    if is_held(bitmaps, vk) {
        let (d, code) = choose|d: int, code: u16|
            #![trigger bitmaps[d], keymap::vk_of(code)]
            0 <= d < bitmaps.len() && code <= KEY_MAX && has_bit(bitmaps[d]@, code)
                && keymap::vk_of(code) == Some(vk);
        keymap::law_codes_are_inverse(vk, code);
        assert(has_bit(bitmaps[d]@, code));
    }
    if let Some(code) = keymap::evdev_of(vk) {
        keymap::law_codes_are_inverse(vk, code);
        if exists|d: int| 0 <= d < bitmaps.len() && has_bit((#[trigger] bitmaps[d])@, code) {
            let d = choose|d: int|
                0 <= d < bitmaps.len() && has_bit((#[trigger] bitmaps[d])@, code);
            assert(keymap::vk_of(code) == Some(vk));
        }
    }
}

proof fn lemma_changes_prefix(a: Seq<u8>, b: Seq<u8>, n: nat, layout: Layout)
    requires
        n * event_size(layout) <= a.len(),
    ensures
        changes_in(a + b, n, layout) == changes_in(a, n, layout),
    decreases n,
{
    if n > 0 {
        let size = event_size(layout);
        let at = (n - 1) * size;
        lemma_event_place((n - 1) as nat, size);
        lemma_changes_prefix(a, b, (n - 1) as nat, layout);
        lemma_same_event(a + b, at, a, at, layout);
    }
}

/// An event begins where the events before it end.
proof fn lemma_event_place(n: nat, size: int)
    requires
        size > 0,
    ensures
        0 <= n * size,
        (n + 1) * size == n * size + size,
{
    assert(0 <= n * size) by (nonlinear_arith)
        requires
            size > 0,
    ;
    assert((n + 1) * size == n * size + size) by (nonlinear_arith);
}

/// The same bytes are the same event, wherever they stand.
proof fn lemma_same_event(a: Seq<u8>, i: int, b: Seq<u8>, j: int, layout: Layout)
    requires
        forall|k: int| 0 <= k < event_size(layout) ==> a[i + k] == #[trigger] b[j + k],
    ensures
        event::event_at(a, i, layout) == event::event_at(b, j, layout),
{
    let t = layout.time_size as int;
    assert(a[i + t] == b[j + t]);
    assert(a[i + (t + 1)] == b[j + (t + 1)]);
    assert(a[i + (t + 2)] == b[j + (t + 2)]);
    assert(a[i + (t + 3)] == b[j + (t + 3)]);
    assert(a[i + (t + 4)] == b[j + (t + 4)]);
    assert(a[i + (t + 5)] == b[j + (t + 5)]);
    assert(a[i + (t + 6)] == b[j + (t + 6)]);
    assert(a[i + (t + 7)] == b[j + (t + 7)]);
}

/// How a stream of events is cut into reads makes no difference, as long as each
/// read holds whole events.
pub proof fn law_reads_can_be_cut(a: Seq<u8>, b: Seq<u8>, n: nat, m: nat, layout: Layout)
    requires
        a.len() == n * event_size(layout),
        b.len() == m * event_size(layout),
    ensures
        changes_in(a + b, n + m, layout) == changes_in(a, n, layout) + changes_in(b, m, layout),
    decreases m,
{
    if m == 0 {
        lemma_changes_prefix(a, b, n, layout);
        assert(changes_in(b, 0, layout) =~= Seq::empty());
        assert(changes_in(a, n, layout) + changes_in(b, 0, layout) =~= changes_in(a, n, layout));
    } else {
        let size = event_size(layout);
        let at = (m - 1) * size;
        lemma_event_place((m - 1) as nat, size);
        let shorter = b.take(at);
        let rest = b.skip(at);
        law_reads_can_be_cut(a, shorter, n, (m - 1) as nat, layout);
        assert(b =~= shorter + rest);
        assert(a + b =~= (a + shorter) + rest);
        assert((n + m - 1) * size == n * size + (m - 1) * size) by (nonlinear_arith);
        lemma_changes_prefix(a + shorter, rest, (n + m - 1) as nat, layout);
        lemma_changes_prefix(shorter, rest, (m - 1) as nat, layout);
        lemma_same_event(a + b, a.len() + at, b, at, layout);
        assert(changes_in(a + b, n + m, layout) =~= changes_in(a, n, layout) + changes_in(
            b,
            m,
            layout,
        ));
    }
}

/// A key event that was written for a VK code is captured as that VK code.
pub proof fn law_written_keys_are_captured(vk: u32, press: bool, layout: Layout)
    requires
        keymap::evdev_of(vk) is Some,
    ensures
        ({
            let event = InputEvent {
                type_: EV_KEY,
                code: keymap::evdev_of(vk)->0,
                value: if press { 1 } else { 0 },
            };
            changes_in(event::event_bytes(event, layout), 1, layout) == seq![
                KeyChange { vk, press },
            ]
        }),
{
    let event = InputEvent {
        type_: EV_KEY,
        code: keymap::evdev_of(vk)->0,
        value: if press { 1 } else { 0 },
    };
    let written = event::event_bytes(event, layout);
    keymap::law_codes_are_inverse(vk, event.code);
    event::law_events_read_back(event, layout, Seq::empty(), Seq::empty());
    assert(Seq::<u8>::empty() + written + Seq::<u8>::empty() =~= written);
    reveal_with_fuel(changes_in, 2);
    assert(changes_in(written, 1, layout) =~= seq![KeyChange { vk, press }]);
}

/// A request number is made of the direction, the size, the group and the number,
/// each in its own bits.
pub proof fn law_request_numbers(nr: u64, size: u64)
    requires
        nr < 0x100,
        size < 0x4000,
    ensures
        read_request(nr, size) == 0x8000_0000 + size * 0x1_0000 + 0x4500 + nr,
{
    assert((2u64 << 30) | (size << 16) | (0x45u64 << 8) | nr == 0x8000_0000u64 + size * 0x1_0000u64
        + 0x4500u64 + nr) by (bit_vector)
        requires
            nr < 0x100u64,
            size < 0x4000u64,
    ;
}

/// The bit of a key code is that of its place in its byte, the low bits first.
pub proof fn law_bits(bitmap: Seq<u8>, code: u16)
    ensures
        ({
            let byte = bitmap[code as int / 8] as int;
            &&& code as int / 8 >= bitmap.len() ==> !has_bit(bitmap, code)
            &&& code as int / 8 < bitmap.len() ==> {
                &&& code % 8 == 0 ==> has_bit(bitmap, code) == (byte % 2 == 1)
                &&& code % 8 == 1 ==> has_bit(bitmap, code) == (byte / 2 % 2 == 1)
                &&& code % 8 == 2 ==> has_bit(bitmap, code) == (byte / 4 % 2 == 1)
                &&& code % 8 == 3 ==> has_bit(bitmap, code) == (byte / 8 % 2 == 1)
                &&& code % 8 == 4 ==> has_bit(bitmap, code) == (byte / 16 % 2 == 1)
                &&& code % 8 == 5 ==> has_bit(bitmap, code) == (byte / 32 % 2 == 1)
                &&& code % 8 == 6 ==> has_bit(bitmap, code) == (byte / 64 % 2 == 1)
                &&& code % 8 == 7 ==> has_bit(bitmap, code) == (byte / 128 % 2 == 1)
            }
        }),
{
    let b: u8 = bitmap[code as int / 8];
    assert((b >> 0u8) & 1 == b % 2) by (bit_vector);
    assert((b >> 1u8) & 1 == b / 2 % 2) by (bit_vector);
    assert((b >> 2u8) & 1 == b / 4 % 2) by (bit_vector);
    assert((b >> 3u8) & 1 == b / 8 % 2) by (bit_vector);
    assert((b >> 4u8) & 1 == b / 16 % 2) by (bit_vector);
    assert((b >> 5u8) & 1 == b / 32 % 2) by (bit_vector);
    assert((b >> 6u8) & 1 == b / 64 % 2) by (bit_vector);
    assert((b >> 7u8) & 1 == b / 128 % 2) by (bit_vector);
}

/// Which devices are read: those with the keys A and Z that do not go by the
/// helper's own name, which ends at the first zero byte of what the kernel gives.
pub proof fn law_devices(bits: &[u8], name: &[u8], file: &str)
    ensures
        has_letters(Some(bits)) <==> has_bit(bits@, 30) && has_bit(bits@, 44),
        !has_letters(None),
        !has_own_name(None),
        has_own_name(Some(name)) <==> name@ == "Wispr Flow Linux Helper".spec_bytes() || exists|
            rest: Seq<u8>,
        |
            #[trigger] ("Wispr Flow Linux Helper".spec_bytes() + rest) == name@ && rest.len() > 0
                && rest[0] == 0,
        is_node_name(Some(file)) <==> exists|rest: Seq<char>| #[trigger] ("event"@ + rest) == file@,
        !is_node_name(None),
{
    text::law_parts(file@, "event"@);
    let own = OWN_INJECTION_NAME.spec_bytes();
    reveal_strlit("Wispr Flow Linux Helper");
    assert(vstd::string::is_ascii(OWN_INJECTION_NAME));
    vstd::string::is_ascii_spec_bytes(OWN_INJECTION_NAME);
    assert forall|i: int| 0 <= i < own.len() implies own[i] != 0 by {}
    let n = name@;
    if has_own_name(Some(name)) {
        lemma_until_zero_cut(n);
        let end = own.len() as int;
        assert(n.take(end) =~= own);
        if end < n.len() {
            assert(own + n.skip(end) =~= n);
        } else {
            assert(n =~= own);
        }
    }
    if n == own {
        bytes::lemma_until_zero(n, own.len() as int);
        assert(n.take(own.len() as int) =~= own);
    }
    assert forall|rest: Seq<u8>| #[trigger] (own + rest) == n && rest.len() > 0 && rest[0]
        == 0 implies has_own_name(Some(name)) by {
        assert forall|i: int| 0 <= i < own.len() implies n[i] != 0 by {
            assert(n[i] == own[i]);
        }
        assert(n[own.len() as int] == rest[0]);
        bytes::lemma_until_zero(n, own.len() as int);
        assert(n.take(own.len() as int) =~= own);
    }
}

/// The bytes up to a zero byte are a beginning, and a zero byte or the end follows.
proof fn lemma_until_zero_cut(n: Seq<u8>)
    ensures
        bytes::until_zero(n).len() <= n.len(),
        bytes::until_zero(n) == n.take(bytes::until_zero(n).len() as int),
        bytes::until_zero(n).len() < n.len() ==> n[bytes::until_zero(n).len() as int] == 0,
    decreases n.len(),
{
    if n.len() == 0 || n[0] == 0 {
        assert(n.take(0) =~= Seq::empty());
    } else {
        let rest = n.skip(1);
        lemma_until_zero_cut(rest);
        let part = bytes::until_zero(rest);
        assert(n.take(part.len() as int + 1) =~= seq![n[0]] + rest.take(part.len() as int));
        if part.len() < rest.len() {
            assert(rest[part.len() as int] == n[part.len() as int + 1]);
        }
    }
}

/// One event is reported as one key change exactly when it is a press or a release
/// of a key with a VK code, whatever its time stamp: a press for the value one, a
/// release for zero. Anything else is reported as nothing.
pub proof fn law_one_event(event: InputEvent, layout: Layout, stamp: Seq<u8>)
    requires
        stamp.len() == layout.time_size,
    ensures
        ({
            let data = stamp + event::event_bytes(event, layout).skip(layout.time_size as int);
            let seen = changes_in(data, 1, layout);
            &&& data.len() == layout.time_size + 8
            &&& event.type_ == 1 && event.value == 1 ==> (keymap::vk_of(event.code) matches Some(vk)
                ==> seen == seq![KeyChange { vk, press: true }])
            &&& event.type_ == 1 && event.value == 0 ==> (keymap::vk_of(event.code) matches Some(vk)
                ==> seen == seq![KeyChange { vk, press: false }])
            &&& event.type_ != 1 || (event.value != 0 && event.value != 1) || keymap::vk_of(
                event.code,
            ) is None ==> seen.len() == 0
            &&& changes_in(data, 0, layout).len() == 0
        }),
{
    let fields = event::event_bytes(event, layout).skip(layout.time_size as int);
    let data = stamp + fields;
    event::law_event_layout(event, layout);
    event::law_time_stamp_does_not_matter(event, layout, stamp, Seq::empty(), Seq::empty());
    assert(Seq::<u8>::empty() + stamp + fields + Seq::<u8>::empty() =~= data);
    reveal_with_fuel(changes_in, 2);
    let size = event_size(layout);
    assert((1 - 1) * size == 0) by (nonlinear_arith);
    assert(event::event_at(data, (1 - 1) * size, layout) == event);
    assert(changes_in(data, 0, layout) =~= Seq::empty());
    match key_change(event) {
        Some(change) => {
            assert(changes_in(data, 1, layout) =~= seq![change]);
        },
        None => {
            assert(changes_in(data, 1, layout) =~= Seq::empty());
        },
    }
}

} // verus!
