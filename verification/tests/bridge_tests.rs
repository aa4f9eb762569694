use usb_uart_bridge::batch::{batch_packets, extend_usb_batch};
use usb_uart_bridge::channels::{collect_usb_batch, BridgeChannels};
use usb_uart_bridge::packet::Packet;
use usb_uart_bridge::pads::{pad_control_address, with_pull_up};
use usb_uart_bridge::uart::{pio_frequency, RxAssembler, UartEvent};
use usb_uart_bridge::usb::{
    usb_rx_step, BaudTracker, Disconnected, EndpointFault, UsbRxAction, STARTING_BAUD_RATE,
};
use usb_uart_bridge::ws2812::{bit_pulse, frame_corrupted, frame_pulses, Pulse};

#[test]
fn packet_from_prefix_zero_pads() {
    let p = Packet::from_prefix(b"abcdef", 3);
    assert_eq!(p.as_slice(), b"abc");
    assert_eq!(&p.data()[..4], &[b'a', b'b', b'c', 0]);
    assert!(p.data()[3..].iter().all(|&x| x == 0));
}

#[test]
fn batch_cuts_the_packet_that_fills_it() {
    let a = [1u8; 60];
    let packets = vec![Packet::new(&a), Packet::new(b"wxyz12"), Packet::new(b"zz")];
    let (result, n) = batch_packets(&packets);
    assert_eq!(n, 64);
    let mut expected = vec![1u8; 60];
    expected.extend_from_slice(b"wxyz");
    assert_eq!(result, expected);
}

#[test]
fn batch_of_nothing_is_empty() {
    let (result, n) = batch_packets(&[]);
    assert_eq!(n, 0);
    assert!(result.is_empty());
}

#[test]
fn usb_batch_drains_waiting_packets_in_order() {
    let ch = BridgeChannels::new();
    ch.uart_to_usb.try_send(Packet::new(b"bar")).unwrap();
    ch.uart_to_usb.try_send(Packet::new(b"baz")).unwrap();
    let first = Packet::new(b"foo");
    let b = collect_usb_batch(&first, &ch);
    assert_eq!(b.as_slice(), b"foobarbaz");
    assert!(ch.uart_to_usb.try_receive().is_err());
}

#[test]
fn usb_batch_stops_when_full_and_leaves_the_rest() {
    let ch = BridgeChannels::new();
    ch.uart_to_usb.try_send(Packet::new(&[2u8; 40])).unwrap();
    ch.uart_to_usb.try_send(Packet::new(b"later")).unwrap();
    let first = Packet::new(&[1u8; 30]);
    let b = collect_usb_batch(&first, &ch);
    assert_eq!(b.len(), 64);
    assert_eq!(&b.as_slice()[..30], &[1u8; 30]);
    assert_eq!(&b.as_slice()[30..], &[2u8; 34]);
    let left = ch.uart_to_usb.try_receive().unwrap();
    assert_eq!(left.as_slice(), b"later");
}

#[test]
fn usb_batch_with_empty_queue_is_first_packet() {
    let ch = BridgeChannels::new();
    let first = Packet::new(b"only");
    let b = collect_usb_batch(&first, &ch);
    assert_eq!(b.as_slice(), b"only");
}

#[test]
fn rx_assembler_sends_burst_on_silence() {
    let mut a = RxAssembler::new();
    assert!(!a.is_collecting());
    assert!(a.on_silence().is_none());
    for &x in b"hi!" {
        assert!(a.on_byte(x).is_none());
    }
    assert!(a.is_collecting());
    let p = a.on_silence().unwrap();
    assert_eq!(p.as_slice(), b"hi!");
    assert!(!a.is_collecting());
}

#[test]
fn rx_assembler_sends_full_packet_at_once() {
    let mut a = RxAssembler::new();
    let mut sent = Vec::new();
    for i in 0..70u8 {
        if let Some(p) = a.on_byte(i) {
            sent.push(p);
        }
    }
    assert_eq!(sent.len(), 1);
    let expected: Vec<u8> = (0u8..64).collect();
    assert_eq!(sent[0].as_slice(), expected.as_slice());
    let rest = a.on_silence().unwrap();
    assert_eq!(rest.as_slice(), &[64, 65, 66, 67, 68, 69]);
}

#[test]
fn rx_assembler_keeps_byte_stream() {
    let input: Vec<u8> = (0..200u32).map(|x| (x * 7) as u8).collect();
    let mut a = RxAssembler::new();
    let mut out: Vec<u8> = Vec::new();
    for (i, &x) in input.iter().enumerate() {
        if let Some(p) = a.on_byte(x) {
            assert!(p.len() > 0 && p.len() <= 64);
            out.extend_from_slice(p.as_slice());
        }
        if i % 17 == 0 {
            if let Some(p) = a.on_silence() {
                out.extend_from_slice(p.as_slice());
            }
        }
    }
    if let Some(p) = a.on_silence() {
        out.extend_from_slice(p.as_slice());
    }
    assert_eq!(out, input);
}

#[test]
fn baud_tracker_forwards_only_changes() {
    let mut t = BaudTracker::new();
    assert_eq!(STARTING_BAUD_RATE, 115_200);
    assert_eq!(t.on_connect(115_200), None);
    assert_eq!(t.on_connect(9_600), Some(9_600));
    assert_eq!(t.on_connect(9_600), None);
    assert_eq!(t.on_connect(115_200), Some(115_200));
}

#[test]
fn usb_rx_step_forwards_exact_bytes() {
    let mut buf = [0u8; 64];
    buf[..5].copy_from_slice(b"abcde");
    match usb_rx_step(Ok(3), &buf) {
        UsbRxAction::Forward(p) => assert_eq!(p.as_slice(), b"abc"),
        other => panic!("unexpected {:?}", other),
    }
}

#[test]
fn usb_rx_step_ignores_empty_read() {
    let buf = [7u8; 64];
    assert!(matches!(usb_rx_step(Ok(0), &buf), UsbRxAction::Ignore));
}

#[test]
fn usb_rx_step_disconnects_on_error() {
    let buf = [7u8; 64];
    assert!(matches!(
        usb_rx_step(Err(EndpointFault::Disabled), &buf),
        UsbRxAction::Disconnect
    ));
    assert!(matches!(
        usb_rx_step(Err(EndpointFault::BufferOverflow), &buf),
        UsbRxAction::Disconnect
    ));
}

#[test]
fn disabled_endpoint_is_a_disconnection() {
    let _d: Disconnected = Disconnected::from_fault(EndpointFault::Disabled);
}

#[test]
fn uart_event_carries_baud() {
    let e = UartEvent::BaudChange(57_600);
    assert_eq!(e, UartEvent::BaudChange(57_600));
    assert_ne!(e, UartEvent::BaudChange(9_600));
}

#[test]
fn pio_frequency_is_baud_times_cycles() {
    assert_eq!(pio_frequency(115_200, 8), 921_600);
    assert_eq!(pio_frequency(9_600, 16), 153_600);
}

#[test]
fn ws2812_frame_is_grb_msb_first() {
    let one = Pulse { high_cycles: 80, low_cycles: 44 };
    let zero = Pulse { high_cycles: 26, low_cycles: 90 };
    assert_eq!(bit_pulse(true), one);
    assert_eq!(bit_pulse(false), zero);
    // r = 0x00, g = 0x81, b = 0x40
    let ps = frame_pulses(0x00, 0x81, 0x40);
    assert_eq!(ps.len(), 24);
    let bits: Vec<bool> = ps.iter().map(|p| *p == one).collect();
    let expected: Vec<bool> = [
        1, 0, 0, 0, 0, 0, 0, 1, // green
        0, 0, 0, 0, 0, 0, 0, 0, // red
        0, 1, 0, 0, 0, 0, 0, 0, // blue
    ]
    .iter()
    .map(|&x| x == 1)
    .collect();
    assert_eq!(bits, expected);
}

#[test]
fn ws2812_frame_decodes_to_color() {
    let one = Pulse { high_cycles: 80, low_cycles: 44 };
    let ps = frame_pulses(0x12, 0xA5, 0xFE);
    let bytes: Vec<u8> = ps
        .chunks(8)
        .map(|c| c.iter().fold(0u8, |acc, p| (acc << 1) | (*p == one) as u8))
        .collect();
    assert_eq!(bytes, vec![0xA5, 0x12, 0xFE]);
}

#[test]
fn ws2812_timing_check_handles_wraparound() {
    assert!(!frame_corrupted(100, 138));
    assert!(frame_corrupted(100, 139));
    assert!(!frame_corrupted(0xFFFF_FFF0, 0x10));
    assert!(frame_corrupted(0xFFFF_FFF0, 0x20));
}

#[test]
fn pull_up_register_arithmetic() {
    assert_eq!(pad_control_address(27), 0x4001_c070);
    assert_eq!(pad_control_address(0), 0x4001_c004);
    assert_eq!(with_pull_up(0x56), 0x5E);
    assert_eq!(with_pull_up(with_pull_up(0x10)), 0x18);
}

#[test]
fn packets_are_zero_padded() {
    let mut a = RxAssembler::new();
    for &x in b"hello world" {
        assert!(a.on_byte(x).is_none());
    }
    let p = a.on_silence().unwrap();
    assert_eq!(p.len(), 11);
    assert_eq!(&p.data()[..11], b"hello world");
    assert_eq!(&p.data()[11..], &[0u8; 53]);

    let buf = [9u8; 64];
    match usb_rx_step(Ok(2), &buf) {
        UsbRxAction::Forward(p) => {
            assert_eq!(&p.data()[..2], &[9, 9]);
            assert_eq!(&p.data()[2..], &[0u8; 62]);
        }
        other => panic!("unexpected {:?}", other),
    }
}

#[test]
fn extend_usb_batch_steps() {
    let batch = Packet::new(b"ab");
    let (b, again) = extend_usb_batch(&batch, Some(Packet::new(b"cd")));
    assert_eq!(b.as_slice(), b"abcd");
    assert!(again);
    let (b, again) = extend_usb_batch(&b, None);
    assert_eq!(b.as_slice(), b"abcd");
    assert!(!again);
    let (full, again) = extend_usb_batch(&Packet::new(&[1u8; 60]), Some(Packet::new(b"wxyz12")));
    assert_eq!(full.len(), 64);
    assert_eq!(&full.as_slice()[60..], b"wxyz");
    assert!(!again);
    assert!(full.data()[..].len() == 64);
}
