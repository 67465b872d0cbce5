//! Kernel input events and their bytes, as the machine lays them out: a time stamp,
//! then the type, the code and the value.
use vstd::prelude::*;

verus! {

/// Event type of a synchronisation event.
pub const EV_SYN: u16 = 0x00;

/// Event type of a key event.
pub const EV_KEY: u16 = 0x01;

/// Code of the synchronisation event that closes a group of events.
pub const SYN_REPORT: u16 = 0x00;

/// The highest key code.
pub const KEY_MAX: u16 = 0x2ff;

/// The bytes of a bitmap with a bit for every key code.
pub const BITMAP_LEN: usize = 96;

/// The order of the bytes of a number.
#[derive(Debug, Clone, Copy, PartialEq, Eq, Structural)]
pub enum ByteOrder {
    LowFirst,
    HighFirst,
}

/// How a machine lays out an event: the bytes of the time stamp, and the order of
/// the bytes of a number.
#[derive(Debug, Clone, Copy, PartialEq, Eq, Structural)]
pub struct Layout {
    pub time_size: usize,
    pub order: ByteOrder,
}

/// The time stamp of an event in the C library.
#[verifier::external_type_specification]
#[verifier::external_body]
pub struct ExTimeval(libc::timeval);

/// The bytes of an event: those of the time stamp and of two numbers of 16 bits
/// and one of 32.
pub open spec fn event_size(layout: Layout) -> int {
    layout.time_size + 8
}

/// A kernel input event without its time stamp.
#[derive(Debug, Clone, Copy, PartialEq, Eq)]
pub struct InputEvent {
    pub type_: u16,
    pub code: u16,
    pub value: i32,
}

/// The two bytes of a number.
pub open spec fn bytes16(n: int, order: ByteOrder) -> Seq<u8> {
    match order {
        ByteOrder::LowFirst => seq![(n % 256) as u8, (n / 256 % 256) as u8],
        ByteOrder::HighFirst => seq![(n / 256 % 256) as u8, (n % 256) as u8],
    }
}

/// The four bytes of a number.
pub open spec fn bytes32(n: int, order: ByteOrder) -> Seq<u8> {
    match order {
        ByteOrder::LowFirst => bytes16(n % 65536, order) + bytes16(n / 65536, order),
        ByteOrder::HighFirst => bytes16(n / 65536, order) + bytes16(n % 65536, order),
    }
}

/// The number that two bytes make.
pub open spec fn number16(bytes: Seq<u8>, at: int, order: ByteOrder) -> int {
    match order {
        ByteOrder::LowFirst => bytes[at] + 256 * bytes[at + 1],
        ByteOrder::HighFirst => 256 * bytes[at] + bytes[at + 1],
    }
}

/// The number that four bytes make.
pub open spec fn number32(bytes: Seq<u8>, at: int, order: ByteOrder) -> int {
    match order {
        ByteOrder::LowFirst => number16(bytes, at, order) + 65536 * number16(bytes, at + 2, order),
        ByteOrder::HighFirst => 65536 * number16(bytes, at, order) + number16(
            bytes,
            at + 2,
            order,
        ),
    }
}

/// A signed number as the unsigned one with the same 32 bits.
pub open spec fn to_unsigned(value: i32) -> int {
    if value >= 0 {
        value as int
    } else {
        value + 0x1_0000_0000
    }
}

/// The unsigned number of 32 bits as the signed one with the same bits.
pub open spec fn to_signed(n: int) -> int {
    if n < 0x8000_0000 {
        n
    } else {
        n - 0x1_0000_0000
    }
}

/// The bytes of an event, with a time stamp of zero.
pub open spec fn event_bytes(event: InputEvent, layout: Layout) -> Seq<u8> {
    Seq::new(layout.time_size as nat, |i: int| 0u8) + bytes16(event.type_ as int, layout.order)
        + bytes16(event.code as int, layout.order) + bytes32(
        to_unsigned(event.value),
        layout.order,
    )
}

/// The event whose bytes begin at `at`.
pub open spec fn event_at(bytes: Seq<u8>, at: int, layout: Layout) -> InputEvent {
    let fields = at + layout.time_size;
    InputEvent {
        type_: number16(bytes, fields, layout.order) as u16,
        code: number16(bytes, fields + 2, layout.order) as u16,
        value: to_signed(number32(bytes, fields + 4, layout.order)) as i32,
    }
}

/// `u16::to_ne_bytes` of the standard library: the two bytes of a number in the
/// order of the machine. Which of the two orders that is is not stated.
#[verifier::external_body]
fn native_bytes(n: u16) -> (r: [u8; 2])
    ensures
        r@ == bytes16(n as int, ByteOrder::LowFirst) || r@ == bytes16(
            n as int,
            ByteOrder::HighFirst,
        ),
{
    n.to_ne_bytes()
}

/// The bytes are those of the number one on this machine.
pub closed spec fn is_native_one(one: [u8; 2]) -> bool {
    call_ensures(native_bytes, (1u16,), one)
}

/// The order in which the number one has the two bytes.
pub open spec fn order_shown(one: [u8; 2]) -> ByteOrder {
    if one@[0] == 1 {
        ByteOrder::LowFirst
    } else {
        ByteOrder::HighFirst
    }
}

/// The order in which the number one has the two bytes.
pub fn order_of_one(one: [u8; 2]) -> (r: ByteOrder)
    ensures
        r == order_shown(one),
{
    if one[0] == 1 {
        ByteOrder::LowFirst
    } else {
        ByteOrder::HighFirst
    }
}

/// How this machine lays out an event.
pub fn native_layout() -> (r: Layout)
    ensures
        r.time_size as nat == vstd::layout::size_of::<libc::timeval>(),
        exists|one: [u8; 2]| #[trigger] is_native_one(one) && r.order == order_shown(one),
{
    let one = native_bytes(1);
    proof {
        assert(is_native_one(one));
    }
    Layout { time_size: core::mem::size_of::<libc::timeval>(), order: order_of_one(one) }
}

/// Appends the two bytes of a number.
pub fn push16(out: &mut Vec<u8>, n: u16, order: ByteOrder)
    ensures
        final(out)@ == old(out)@ + bytes16(n as int, order),
{
    let low = (n % 256) as u8;
    let high = (n / 256) as u8;
    match order {
        ByteOrder::LowFirst => {
            out.push(low);
            out.push(high);
        },
        ByteOrder::HighFirst => {
            out.push(high);
            out.push(low);
        },
    }
    proof {
        assert(out@ =~= old(out)@ + bytes16(n as int, order));
    }
}

/// Appends the four bytes of a number.
fn push32(out: &mut Vec<u8>, n: u32, order: ByteOrder)
    ensures
        final(out)@ == old(out)@ + bytes32(n as int, order),
{
    let low = (n % 65536) as u16;
    let high = (n / 65536) as u16;
    match order {
        ByteOrder::LowFirst => {
            push16(out, low, order);
            push16(out, high, order);
        },
        ByteOrder::HighFirst => {
            push16(out, high, order);
            push16(out, low, order);
        },
    }
    proof {
        assert(out@ =~= old(out)@ + bytes32(n as int, order));
    }
}

/// The bytes that write an event to a device.
pub fn encode_event(event: InputEvent, layout: Layout) -> (r: Vec<u8>)
    ensures
        r@ == event_bytes(event, layout),
        r@.len() == event_size(layout),
{
    let mut out: Vec<u8> = Vec::new();
    let mut i: usize = 0;
    while i < layout.time_size
        invariant
            i <= layout.time_size,
            out@ == Seq::new(i as nat, |j: int| 0u8),
        decreases layout.time_size - i,
    {
        out.push(0);
        i = i + 1;
        proof {
            assert(out@ =~= Seq::new(i as nat, |j: int| 0u8));
        }
    }
    push16(&mut out, event.type_, layout.order);
    push16(&mut out, event.code, layout.order);
    let bits: u32 = if event.value >= 0 {
        event.value as u32
    } else {
        0xffff_ffff - (-(event.value + 1)) as u32
    };
    proof {
        assert(bits == to_unsigned(event.value));
    }
    push32(&mut out, bits, layout.order);
    out
}

/// The number that two bytes make.
fn read16(bytes: &[u8], at: usize, order: ByteOrder) -> (r: u16)
    requires
        at + 1 < bytes@.len(),
    ensures
        r == number16(bytes@, at as int, order),
{
    match order {
        ByteOrder::LowFirst => (bytes[at] as u16) + 256 * (bytes[at + 1] as u16),
        ByteOrder::HighFirst => 256 * (bytes[at] as u16) + (bytes[at + 1] as u16),
    }
}

/// The number that four bytes make.
fn read32(bytes: &[u8], at: usize, order: ByteOrder) -> (r: u32)
    requires
        at + 3 < bytes@.len(),
    ensures
        r == number32(bytes@, at as int, order),
{
    proof {
        assert(bytes@.len() == bytes.len());
    }
    let first = read16(bytes, at, order) as u32;
    let second = read16(bytes, at + 2, order) as u32;
    match order {
        ByteOrder::LowFirst => first + 65536 * second,
        ByteOrder::HighFirst => 65536 * first + second,
    }
}

/// The event whose bytes begin at `at`.
pub fn decode_event(bytes: &[u8], at: usize, layout: Layout) -> (r: InputEvent)
    requires
        at + event_size(layout) <= bytes@.len(),
    ensures
        r == event_at(bytes@, at as int, layout),
{
    proof {
        assert(bytes@.len() == bytes.len());
    }
    let fields = at + layout.time_size;
    let bits = read32(bytes, fields + 4, layout.order);
    let value: i32 = if bits < 0x8000_0000 {
        bits as i32
    } else {
        -((0xffff_ffff - bits) as i32) - 1
    };
    InputEvent {
        type_: read16(bytes, fields, layout.order),
        code: read16(bytes, fields + 2, layout.order),
        value,
    }
}

/// Reading an event gives back what was written, wherever its bytes stand and
/// however the machine lays them out.
pub proof fn law_events_read_back(
    event: InputEvent,
    layout: Layout,
    before: Seq<u8>,
    after: Seq<u8>,
)
    ensures
        event_at(before + event_bytes(event, layout) + after, before.len() as int, layout) == event,
{
    let written = event_bytes(event, layout);
    let bytes = before + written + after;
    let at = before.len() as int;
    let t = layout.time_size as int;
    let order = layout.order;
    let bits = to_unsigned(event.value);
    assert forall|i: int| 0 <= i < event_size(layout) implies bytes[at + i] == #[trigger] written[i] by {}
    assert(written[t] == bytes16(event.type_ as int, order)[0]);
    assert(written[t + 1] == bytes16(event.type_ as int, order)[1]);
    assert(written[t + 2] == bytes16(event.code as int, order)[0]);
    assert(written[t + 3] == bytes16(event.code as int, order)[1]);
    assert(written[t + 4] == bytes32(bits, order)[0]);
    assert(written[t + 5] == bytes32(bits, order)[1]);
    assert(written[t + 6] == bytes32(bits, order)[2]);
    assert(written[t + 7] == bytes32(bits, order)[3]);
    assert(number16(bytes, at + t, order) == event.type_);
    assert(number16(bytes, at + t + 2, order) == event.code);
    assert(number32(bytes, at + t + 4, order) == bits);
}

/// Where the parts of an event stand and how their numbers are written: a time
/// stamp of zeros, the type, the code and the value, each with its low byte first or
/// each with its high byte first.
pub proof fn law_event_layout(event: InputEvent, layout: Layout)
    ensures
        ({
            let b = event_bytes(event, layout);
            let t = layout.time_size as int;
            let bits = if event.value >= 0 {
                event.value as int
            } else {
                event.value + 0x1_0000_0000
            };
            &&& b.len() == t + 8
            &&& event_size(layout) == t + 8
            &&& forall|i: int| 0 <= i < t ==> #[trigger] b[i] == 0
            &&& layout.order is LowFirst ==> {
                &&& event.type_ == b[t] + 256 * b[t + 1]
                &&& event.code == b[t + 2] + 256 * b[t + 3]
                &&& bits == b[t + 4] + 256 * b[t + 5] + 65536 * b[t + 6] + 16777216 * b[t + 7]
            }
            &&& layout.order is HighFirst ==> {
                &&& event.type_ == 256 * b[t] + b[t + 1]
                &&& event.code == 256 * b[t + 2] + b[t + 3]
                &&& bits == 16777216 * b[t + 4] + 65536 * b[t + 5] + 256 * b[t + 6] + b[t + 7]
            }
        }),
{
    let b = event_bytes(event, layout);
    let t = layout.time_size as int;
    let order = layout.order;
    let bits = to_unsigned(event.value);
    assert(b[t] == bytes16(event.type_ as int, order)[0]);
    assert(b[t + 1] == bytes16(event.type_ as int, order)[1]);
    assert(b[t + 2] == bytes16(event.code as int, order)[0]);
    assert(b[t + 3] == bytes16(event.code as int, order)[1]);
    assert(b[t + 4] == bytes32(bits, order)[0]);
    assert(b[t + 5] == bytes32(bits, order)[1]);
    assert(b[t + 6] == bytes32(bits, order)[2]);
    assert(b[t + 7] == bytes32(bits, order)[3]);
}

/// What is read from the bytes of an event, whatever they are: the type, the code
/// and the value are those of the eight bytes behind the time stamp, and nothing
/// else counts.
pub proof fn law_event_is_read(bytes: Seq<u8>, at: int, layout: Layout)
    ensures
        ({
            let event = event_at(bytes, at, layout);
            let f = at + layout.time_size;
            let low = bytes[f + 4] + 256 * bytes[f + 5] + 65536 * bytes[f + 6] + 16777216 * bytes[f
                + 7];
            let high = 16777216 * bytes[f + 4] + 65536 * bytes[f + 5] + 256 * bytes[f + 6]
                + bytes[f + 7];
            &&& layout.order is LowFirst ==> {
                &&& event.type_ == bytes[f] + 256 * bytes[f + 1]
                &&& event.code == bytes[f + 2] + 256 * bytes[f + 3]
                &&& event.value == low || event.value == low - 0x1_0000_0000
            }
            &&& layout.order is HighFirst ==> {
                &&& event.type_ == 256 * bytes[f] + bytes[f + 1]
                &&& event.code == 256 * bytes[f + 2] + bytes[f + 3]
                &&& event.value == high || event.value == high - 0x1_0000_0000
            }
        }),
{
}

/// Reading an event does not depend on its time stamp: behind any bytes of the
/// stamp's size, the type, the code and the value that were written are read.
pub proof fn law_time_stamp_does_not_matter(
    event: InputEvent,
    layout: Layout,
    stamp: Seq<u8>,
    before: Seq<u8>,
    after: Seq<u8>,
)
    requires
        stamp.len() == layout.time_size,
    ensures
        event_at(
            before + stamp + event_bytes(event, layout).skip(layout.time_size as int) + after,
            before.len() as int,
            layout,
        ) == event,
{
    let t = layout.time_size as int;
    let at = before.len() as int;
    let written = event_bytes(event, layout);
    let fields = written.skip(t);
    let plain = before + written + after;
    let stamped = before + stamp + fields + after;
    law_events_read_back(event, layout, before, after);
    law_event_layout(event, layout);
    assert(stamped.len() == plain.len());
    assert forall|i: int| at + t <= i < at + t + 8 implies stamped[i] == #[trigger] plain[i] by {
        assert(plain[i] == written[i - at]);
        assert(stamped[i] == fields[i - at - t]);
    }
    assert(stamped[at + t] == plain[at + t]);
    assert(stamped[at + t + 1] == plain[at + t + 1]);
    assert(stamped[at + t + 2] == plain[at + t + 2]);
    assert(stamped[at + t + 3] == plain[at + t + 3]);
    assert(stamped[at + t + 4] == plain[at + t + 4]);
    assert(stamped[at + t + 5] == plain[at + t + 5]);
    assert(stamped[at + t + 6] == plain[at + t + 6]);
    assert(stamped[at + t + 7] == plain[at + t + 7]);
}

/// The order of bytes is low first exactly where the number one begins with one.
pub proof fn law_order_shown(one: [u8; 2])
    ensures
        one@[0] == 1 ==> order_shown(one) == ByteOrder::LowFirst,
        one@[0] != 1 ==> order_shown(one) == ByteOrder::HighFirst,
{
}

/// The numbers of the kernel's input events.
pub proof fn law_event_numbers()
    ensures
        EV_SYN == 0,
        EV_KEY == 1,
        SYN_REPORT == 0,
        KEY_MAX == 0x2ff,
        BITMAP_LEN * 8 == KEY_MAX + 1,
{
}

/// The bytes of one on this machine are what the outside function gave for one.
proof fn law_one_is_given(one: [u8; 2])
    ensures
        is_native_one(one) <==> call_ensures(native_bytes, (1u16,), one),
{
}

} // verus!
