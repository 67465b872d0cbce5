use wispr_flow_linux_helper::event::{
    decode_event, encode_event, native_layout, order_of_one, push16, ByteOrder, InputEvent, Layout,
};

fn layouts() -> Vec<Layout> {
    let mut all = Vec::new();
    for time_size in [8, 16] {
        for order in [ByteOrder::LowFirst, ByteOrder::HighFirst] {
            all.push(Layout { time_size, order });
        }
    }
    all
}

#[test]
fn events_have_the_kernel_layout() {
    let layout = native_layout();
    let bytes = encode_event(InputEvent { type_: 1, code: 0x02ff, value: -2 }, layout);
    let mut expected = vec![0u8; std::mem::size_of::<libc::timeval>()];
    expected.extend(1u16.to_ne_bytes());
    expected.extend(0x02ffu16.to_ne_bytes());
    expected.extend((-2i32).to_ne_bytes());
    assert_eq!(bytes, expected);
    assert_eq!(bytes.len(), std::mem::size_of::<libc::input_event>());
    assert_eq!(layout.time_size, std::mem::size_of::<libc::timeval>());
}

#[test]
fn each_layout_has_its_bytes() {
    let event = InputEvent { type_: 1, code: 0x02ff, value: -2 };
    let mut expected = vec![0u8; 16];
    expected.extend([1, 0, 0xff, 2, 0xfe, 0xff, 0xff, 0xff]);
    let wide = Layout { time_size: 16, order: ByteOrder::LowFirst };
    assert_eq!(encode_event(event, wide), expected);
    let mut expected = vec![0u8; 8];
    expected.extend([0, 1, 2, 0xff, 0xff, 0xff, 0xff, 0xfe]);
    let narrow = Layout { time_size: 8, order: ByteOrder::HighFirst };
    assert_eq!(encode_event(event, narrow), expected);
}

#[test]
fn order_is_that_of_the_number_one() {
    assert_eq!(order_of_one([1, 0]), ByteOrder::LowFirst);
    assert_eq!(order_of_one([0, 1]), ByteOrder::HighFirst);
    assert_eq!(native_layout().order, order_of_one(1u16.to_ne_bytes()));
}

#[test]
fn events_are_read_back() {
    for layout in layouts() {
        for value in [0, 1, 2, -1, i32::MIN, i32::MAX] {
            let event = InputEvent { type_: 0x1234, code: 0xabcd, value };
            let mut bytes = vec![9u8; 5];
            bytes.extend(encode_event(event, layout));
            bytes.push(7);
            assert_eq!(decode_event(&bytes, 5, layout), event);
        }
    }
}

#[test]
fn bytes_are_pushed_in_order() {
    let mut out = vec![1];
    push16(&mut out, 0x1234, ByteOrder::LowFirst);
    push16(&mut out, 0x1234, ByteOrder::HighFirst);
    assert_eq!(out, vec![1, 0x34, 0x12, 0x12, 0x34]);
}
