use rccn_usr::comm::config::{Config, FrameConfig, FrameKind, FrameOutConfig, Frames};
use rccn_usr::comm::frame_processor::{
    FrameEvent, FrameProcessingError, FrameProcessor, TcTransferFrame, UslpFrame,
};
use rccn_usr::transport::config::{RxTransport, TxTransport, UdpRxTransport, UdpTxTransport};
use rccn_usr::types::{Sender, VirtualChannelTxMap};

fn processor(spacecraft_id: u16) -> FrameProcessor {
    FrameProcessor::new(Config {
        frames: Frames {
            spacecraft_id,
            input: FrameConfig {
                frame_kind: FrameKind::Tc,
                transport: RxTransport::Udp(UdpRxTransport { listen: "0.0.0.0:6000".to_string() }),
            },
            out: FrameOutConfig {
                frame_kind: FrameKind::Uslp,
                transport: TxTransport::Udp(UdpTxTransport { send: "127.0.0.1:6001".to_string() }),
            },
        },
        virtual_channels: vec![],
    })
}

fn two_channels() -> VirtualChannelTxMap {
    let mut map = VirtualChannelTxMap::new();
    map.insert(0, Sender { channel: 10 });
    map.insert(1, Sender { channel: 11 });
    map
}

/// A stand-in for the frame codec: spacecraft on two bytes, virtual channel, length
/// of the data, data. It reports no frame while bytes are missing.
fn decode(bytes: &[u8]) -> Option<(TcTransferFrame, usize)> {
    if bytes.len() < 4 {
        return None;
    }
    let size = 4 + bytes[3] as usize;
    if bytes.len() < size {
        return None;
    }
    let frame = TcTransferFrame {
        spacecraft_id: u16::from_be_bytes([bytes[0], bytes[1]]),
        vc_id: bytes[2],
        data_field: bytes[4..size].to_vec(),
    };
    Some((frame, size))
}

fn encoded(spacecraft_id: u16, vc_id: u8, data: &[u8]) -> Vec<u8> {
    let mut bytes = spacecraft_id.to_be_bytes().to_vec();
    bytes.push(vc_id);
    bytes.push(data.len() as u8);
    bytes.extend_from_slice(data);
    bytes
}

#[test]
fn frame_data_goes_to_the_virtual_channel_of_the_frame() {
    let mut p = processor(0x100);
    let map = two_channels();
    let data = [1u8, 2, 3, 4, 5];

    let event = p.process_incoming_frames(&encoded(0x100, 1, &data), decode, &map);
    match event {
        FrameEvent::Delivered(d) => {
            assert_eq!(d.vc_id, 1);
            assert_eq!(d.to, Sender { channel: 11 });
            assert_eq!(d.data, data);
        }
        other => panic!("{other:?}"),
    }

    // A frame for another spacecraft is dropped.
    let event = p.process_incoming_frames(&encoded(0x200, 1, &data), decode, &map);
    assert!(matches!(
        event,
        FrameEvent::Dropped(FrameProcessingError::UnknownSpacecraft(0x200))
    ));

    // So is a frame for a virtual channel that is not bound.
    let event = p.process_incoming_frames(&encoded(0x100, 7, &data), decode, &map);
    assert!(matches!(
        event,
        FrameEvent::Dropped(FrameProcessingError::UnknownVirtualChannel(7))
    ));
}

#[test]
fn a_frame_in_pieces_is_gathered() {
    let mut p = processor(0x100);
    let map = two_channels();
    let bytes = encoded(0x100, 0, &[9, 8, 7]);

    assert!(matches!(p.process_incoming_frames(&bytes[0..2], decode, &map), FrameEvent::Incomplete));
    assert!(matches!(p.process_incoming_frames(&bytes[2..5], decode, &map), FrameEvent::Incomplete));
    match p.process_incoming_frames(&bytes[5..], decode, &map) {
        FrameEvent::Delivered(d) => {
            assert_eq!(d.vc_id, 0);
            assert_eq!(d.to, Sender { channel: 10 });
            assert_eq!(d.data, vec![9, 8, 7]);
        }
        other => panic!("{other:?}"),
    }
    // Nothing is left of the frame.
    assert!(matches!(p.process_incoming_frames(&[], decode, &map), FrameEvent::Incomplete));
}

#[test]
fn too_many_bytes_reset_the_decoder() {
    let mut p = processor(0x100);
    let map = two_channels();

    // Garbage that never makes a frame here: the length byte asks for more.
    let garbage = vec![0xFFu8; 10_000];
    assert!(matches!(p.process_incoming_frames(&garbage, decode, &map), FrameEvent::DecoderReset));

    // The next frame is decoded as if nothing had happened.
    let data = [4u8, 2];
    match p.process_incoming_frames(&encoded(0x100, 1, &data), decode, &map) {
        FrameEvent::Delivered(d) => assert_eq!(d.data, data),
        other => panic!("{other:?}"),
    }

    // Bytes that fit exactly are kept, one more resets.
    let mut p = processor(0x100);
    let never = |_: &[u8]| None;
    assert!(matches!(p.process_incoming_frames(&vec![0u8; 8000], never, &map), FrameEvent::Incomplete));
    assert!(matches!(p.process_incoming_frames(&vec![0u8; 96], never, &map), FrameEvent::Incomplete));
    assert!(matches!(p.process_incoming_frames(&[0u8], never, &map), FrameEvent::DecoderReset));
    let seen = std::cell::Cell::new(usize::MAX);
    let event = p.process_incoming_frames(&[1u8, 2], |bytes: &[u8]| { seen.set(bytes.len()); None }, &map);
    assert!(matches!(event, FrameEvent::Incomplete));
    assert_eq!(seen.get(), 2);
}

#[test]
fn distribute_names_the_channel_end() {
    let p = processor(0x100);
    let map = two_channels();
    let frame = TcTransferFrame { spacecraft_id: 0x100, vc_id: 0, data_field: vec![1] };
    let d = p.distribute_vc_data(&frame, &map).unwrap();
    assert_eq!((d.vc_id, d.to, d.data), (0, Sender { channel: 10 }, vec![1]));
    let frame = TcTransferFrame { spacecraft_id: 0x101, vc_id: 0, data_field: vec![1] };
    assert_eq!(p.distribute_vc_data(&frame, &map).unwrap_err(), FrameProcessingError::UnknownSpacecraft(0x101));
    let frame = TcTransferFrame { spacecraft_id: 0x100, vc_id: 2, data_field: vec![1] };
    assert_eq!(p.distribute_vc_data(&frame, &map).unwrap_err(), FrameProcessingError::UnknownVirtualChannel(2));
    assert_eq!(p.config().frames.spacecraft_id, 0x100);
}

#[test]
fn outgoing_frames_have_fixed_fields() {
    let p = processor(0x100);
    let data = [5u8, 6, 7];
    let bytes = p.frame_and_send_virtual_channel_data(3, &data, |frame: UslpFrame| {
        assert_eq!(frame.version, 12);
        assert_eq!(frame.spacecraft_id, 0xAB);
        assert!(frame.source_or_destination);
        assert_eq!(frame.vc_id, 3);
        assert_eq!(frame.map_id, 0);
        assert_eq!(frame.frame_length, 512);
        assert!(!frame.truncated);
        assert!(!frame.insert_zone);
        assert_eq!(frame.payload, vec![5, 6, 7]);
        Some(vec![frame.vc_id, frame.payload.len() as u8])
    });
    assert_eq!(bytes, Some(vec![3, 3]));
    assert_eq!(p.frame_and_send_virtual_channel_data(0, &data, |_| None), None);
}

#[test]
fn payloads_are_framed_in_their_order() {
    let p = processor(0x100);
    let ready = vec![(1u8, vec![1u8, 2]), (0, vec![]), (1, vec![3])];
    let framed = p.process_frames_out(&ready, |frame: UslpFrame| {
        if frame.payload.is_empty() {
            return None;
        }
        assert_eq!((frame.version, frame.spacecraft_id, frame.frame_length), (12, 0xAB, 512));
        let mut bytes = vec![frame.vc_id];
        bytes.extend_from_slice(&frame.payload);
        Some(bytes)
    });
    assert_eq!(framed, vec![Some(vec![1, 1, 2]), None, Some(vec![1, 3])]);
    assert!(p.process_frames_out(&vec![], |_| None).is_empty());
}

#[test]
fn the_processor_keeps_its_configuration() {
    let mut config = processor(0x100).config().clone();
    config.virtual_channels.push(rccn_usr::config::VirtualChannel {
        id: 7,
        name: "seven".to_string(),
        splitter: None,
        tx_transport: None,
        rx_transport: None,
    });
    let mut p = FrameProcessor::new(config);
    let _ = p.process_incoming_frames(&encoded(0x100, 1, &[1]), decode, &two_channels());
    let kept = p.config();
    assert_eq!(kept.frames.spacecraft_id, 0x100);
    assert_eq!(kept.frames.input.frame_kind, FrameKind::Tc);
    assert_eq!(kept.frames.out.frame_kind, FrameKind::Uslp);
    assert_eq!(kept.virtual_channels.len(), 1);
    assert_eq!(kept.virtual_channels[0].id, 7);
    assert_eq!(kept.virtual_channels[0].name, "seven");
}
