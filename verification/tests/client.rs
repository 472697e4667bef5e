use bacnet_rs::address::SocketAddress;
use bacnet_rs::client::address_cache::{
    format_cache, format_hex_bytes, format_line, parse_cache, parse_hex_bytes, parse_line,
};
use bacnet_rs::client::apdu::wrap_unicast;
use bacnet_rs::client::discovery::{merge_router, object_list, sort_routers, who_is_range};
use bacnet_rs::client::error::{response_matches_service, response_result};
use bacnet_rs::client::incoming::notification_parameters;
use bacnet_rs::client::split::split_request;
use bacnet_rs::client::target::peer_limits;
use bacnet_rs::client::{
    AbortReason, Action, Apdu, BacnetTarget, CachedDevice, ClientError, ConfirmedServiceChoice,
    CovKey, DeviceCapabilities, DiscoveredRouter, Endpoint, EndpointCommand, ErrorClass, ErrorCode,
    FrameKind, Incoming, MaxApduSize, MaxSegments, NetworkAddress, OutboundSegments, Packet,
    PropertyAt, Reassembly, RejectReason, RequestFrames, SegmentOutcome, Segmentation, Sightings,
    TransactionKey, UnconfirmedServiceChoice,
};
use bacnet_rs::cov::CovNotification;
use bacnet_rs::object::{ObjectIdentifier, ObjectType, PropertyIdentifier};
use bacnet_rs::property::PropertyValue;

fn peer(last: u8) -> SocketAddress {
    SocketAddress::V4 {
        address: u32::from_be_bytes([192, 168, 1, last]),
        port: 47808,
    }
}

fn target(last: u8, capabilities: Option<DeviceCapabilities>) -> BacnetTarget {
    BacnetTarget {
        address: peer(last),
        route: None,
        capabilities,
    }
}

fn direct_device() -> CachedDevice {
    CachedDevice {
        device_id: 4001,
        target: BacnetTarget {
            address: SocketAddress::V4 {
                address: u32::from_be_bytes([127, 0, 0, 1]),
                port: 47808,
            },
            route: None,
            capabilities: Some(DeviceCapabilities {
                max_apdu: 1476,
                segmentation: Segmentation::Both,
            }),
        },
        max_apdu: 1476,
        segmentation: Segmentation::Both,
    }
}

fn routed_device() -> CachedDevice {
    CachedDevice {
        device_id: 55555,
        target: BacnetTarget {
            address: peer(5),
            route: Some(NetworkAddress::new(
                26001,
                vec![0xc0, 0xa8, 0x00, 0x18, 0xba, 0xc0],
            )),
            capabilities: Some(DeviceCapabilities {
                max_apdu: 50,
                segmentation: Segmentation::NoSegmentation,
            }),
        },
        max_apdu: 50,
        segmentation: Segmentation::NoSegmentation,
    }
}

// ---------------------------------------------------------------------------
// Address cache
// ---------------------------------------------------------------------------

#[test]
fn lines_hold_direct_and_routed_devices() {
    assert_eq!(
        format_line(&direct_device(), "127.0.0.1:47808"),
        "4001 127.0.0.1:47808 0 0 1476 both"
    );
    assert_eq!(
        format_line(&routed_device(), "192.168.1.5:47808"),
        "55555 192.168.1.5:47808 26001 c0:a8:00:18:ba:c0 50 none"
    );
}

#[test]
fn round_trips_direct_and_routed_devices() {
    let devices = vec![direct_device(), routed_device()];
    let addresses = vec!["127.0.0.1:47808".to_string(), "192.168.1.5:47808".to_string()];
    let contents = format_cache(&devices, &addresses);
    let lines = parse_cache(&contents);
    assert_eq!(lines.len(), 2);
    for (line, (device, address)) in lines.into_iter().zip(devices.into_iter().zip(addresses)) {
        assert_eq!(line.address, address);
        assert_eq!(line.bound_to(device.target.address), device);
    }
}

#[test]
fn skips_malformed_lines_without_failing() {
    let lines = parse_cache("not a valid line\n4001 127.0.0.1:47808 0 0 1476 both\n");
    let devices: Vec<CachedDevice> = lines
        .into_iter()
        .map(|line| {
            assert_eq!(line.address, "127.0.0.1:47808");
            line.bound_to(direct_device().target.address)
        })
        .collect();
    assert_eq!(devices, vec![direct_device()]);
}

#[test]
fn a_missing_segmentation_column_defaults_conservatively() {
    let lines = parse_cache("4001 127.0.0.1:47808 0 0 1476\n");
    assert_eq!(lines[0].segmentation, Segmentation::NoSegmentation);
}

#[test]
fn comments_and_blanks_are_skipped() {
    let contents =
        "not a valid line\n; 1 127.0.0.1:47808 0 0 1476 both\n\r\n\t4001 127.0.0.1:47808 0 0 1476 both\r\n";
    let lines = parse_cache(contents);
    assert_eq!(lines.len(), 1);
    assert_eq!(lines[0].device_id, 4001);
    assert_eq!(lines[0].segmentation, Segmentation::Both);
}

#[test]
fn an_absent_or_unknown_segmentation_is_taken_for_none() {
    let line = parse_line("4001 127.0.0.1:47808 0 0 1476").unwrap();
    assert_eq!(line.segmentation, Segmentation::NoSegmentation);
    let line = parse_line("4001 127.0.0.1:47808 0 0 1476 everything").unwrap();
    assert_eq!(line.segmentation, Segmentation::NoSegmentation);
    let line = parse_line("+4001 127.0.0.1:47808 0 0 1476 receive more").unwrap();
    assert_eq!(line.segmentation, Segmentation::Receive);
    let line = parse_line("4001 127.0.0.1:47808 0 0 1476 transmit").unwrap();
    assert_eq!(line.segmentation, Segmentation::Transmit);
}

#[test]
fn numbers_out_of_range_make_a_line_malformed() {
    assert!(parse_line("4294967296 a 0 0 1476").is_none());
    assert!(parse_line("4294967295 a 0 0 1476").is_some());
    assert!(parse_line("1 a 65536 0 1476").is_none());
    assert!(parse_line("1 a -1 0 1476").is_none());
    assert!(parse_line("1 a 0 0 many").is_none());
    assert!(parse_line("1 a 0 0").is_none());
}

#[test]
fn an_unreadable_station_leaves_the_device_without_a_route() {
    let line = parse_line("1 a 7 zz 50").unwrap();
    assert_eq!(line.route, None);
    let line = parse_line("1 a 7 0 50").unwrap();
    assert_eq!(line.route, Some(NetworkAddress::new(7, vec![])));
}

#[test]
fn octets_are_written_in_two_digits_and_read_in_any() {
    assert_eq!(format_hex_bytes(&vec![]), "0");
    assert_eq!(format_hex_bytes(&vec![0]), "00");
    assert_eq!(format_hex_bytes(&vec![0x0a, 0xff]), "0a:ff");
    assert_eq!(parse_hex_bytes("0"), Some(vec![]));
    assert_eq!(parse_hex_bytes("A:fF:007"), Some(vec![0x0a, 0xff, 7]));
    assert_eq!(parse_hex_bytes("100"), None);
    assert_eq!(parse_hex_bytes("1::2"), None);
    assert_eq!(parse_hex_bytes(""), None);
}

// ---------------------------------------------------------------------------
// Targets, frames and answers
// ---------------------------------------------------------------------------

#[test]
fn limits_follow_what_a_peer_said() {
    let silent = peer_limits(&target(1, None));
    assert_eq!(
        (silent.max_apdu, silent.sends_segments, silent.accepts_segments),
        (1476, true, true)
    );
    let small = peer_limits(&target(
        1,
        Some(DeviceCapabilities {
            max_apdu: 300,
            segmentation: Segmentation::Transmit,
        }),
    ));
    assert_eq!(
        (small.max_apdu, small.sends_segments, small.accepts_segments),
        (206, true, false)
    );
    assert_eq!(MaxApduSize::at_most(10).size(), 50);
    assert_eq!(MaxApduSize::at_most(480).size(), 480);
    assert_eq!(MaxApduSize::at_most(9999).size(), 1476);
}

#[test]
fn a_frame_names_its_length() {
    let frame = wrap_unicast(&vec![1, 4], &vec![0, 5, 1, 12]);
    assert_eq!(frame, vec![0x81, 0x0a, 0, 10, 1, 4, 0, 5, 1, 12]);
}

#[test]
fn answers_are_held_against_the_service_asked_for() {
    let ack = Apdu::SimpleAck {
        invoke_id: 1,
        service_choice: 15,
    };
    assert!(response_matches_service(&ack, ConfirmedServiceChoice::WriteProperty));
    assert!(!response_matches_service(&ack, ConfirmedServiceChoice::ReadProperty));
    let abort = Apdu::Abort {
        server: true,
        invoke_id: 1,
        abort_reason: AbortReason::OutOfResources,
    };
    assert!(response_matches_service(&abort, ConfirmedServiceChoice::ReadProperty));
    assert!(!response_matches_service(
        &Apdu::SegmentAck {
            negative: false,
            server: true,
            invoke_id: 1,
            sequence_number: 0,
            window_size: 1,
        },
        ConfirmedServiceChoice::ReadProperty
    ));
}

#[test]
fn each_answer_has_its_meaning() {
    assert!(matches!(
        response_result(Apdu::SimpleAck { invoke_id: 1, service_choice: 15 }),
        Ok(data) if data.is_empty()
    ));
    assert!(matches!(
        response_result(complex_ack(1, false, false, None, vec![7, 8])),
        Ok(data) if data == vec![7, 8]
    ));
    assert!(matches!(
        response_result(Apdu::Error {
            invoke_id: 1,
            service_choice: ConfirmedServiceChoice::ReadProperty,
            error_class: 1,
            error_code: 31,
        }),
        Err(ClientError::PropertyError {
            class: ErrorClass { number: 1 },
            code: ErrorCode { number: 31 },
        })
    ));
    assert!(matches!(
        response_result(Apdu::Reject {
            invoke_id: 1,
            reject_reason: RejectReason::UnrecognizedService,
        }),
        Err(ClientError::Rejected(RejectReason::UnrecognizedService))
    ));
    assert!(matches!(
        response_result(Apdu::Abort {
            server: true,
            invoke_id: 1,
            abort_reason: AbortReason::BufferOverflow,
        }),
        Err(ClientError::Abort(AbortReason::BufferOverflow))
    ));
    assert!(matches!(
        response_result(Apdu::UnconfirmedRequest {
            service_choice: bacnet_rs::client::UnconfirmedServiceChoice::IAm,
            service_data: vec![],
        }),
        Err(ClientError::NoResponse)
    ));
}

// ---------------------------------------------------------------------------
// Messages in pieces
// ---------------------------------------------------------------------------

fn small_peer(segmentation: Segmentation) -> BacnetTarget {
    target(
        1,
        Some(DeviceCapabilities {
            max_apdu: 50,
            segmentation,
        }),
    )
}

fn pieces(frames: &Vec<Packet>) -> Vec<(u8, bool, Vec<u8>)> {
    frames
        .iter()
        .map(|packet| match &packet.apdu {
            Apdu::ConfirmedRequest {
                segmented: true,
                more_follows,
                sequence_number: Some(sequence),
                proposed_window_size: Some(16),
                service_data,
                ..
            } => (*sequence, *more_follows, service_data.clone()),
            other => panic!("not a piece: {other:?}"),
        })
        .collect()
}

#[test]
fn a_request_that_fits_goes_out_whole() {
    let data = vec![9; 44];
    match split_request(
        &small_peer(Segmentation::NoSegmentation),
        3,
        ConfirmedServiceChoice::WriteProperty,
        data.clone(),
    ) {
        Ok(RequestFrames::Whole(packet)) => {
            assert!(packet.expecting_reply);
            assert_eq!(packet.destination, None);
            assert!(matches!(
                packet.apdu,
                Apdu::ConfirmedRequest {
                    segmented: false,
                    segmented_response_accepted: false,
                    invoke_id: 3,
                    service_data,
                    ..
                } if service_data == data
            ));
        }
        _ => panic!("expected one message"),
    }
}

#[test]
fn a_request_too_large_is_cut_and_joins_again() {
    let data: Vec<u8> = (0..100).collect();
    let frames = match split_request(
        &small_peer(Segmentation::Both),
        3,
        ConfirmedServiceChoice::WriteProperty,
        data.clone(),
    ) {
        Ok(RequestFrames::Segmented(frames)) => frames,
        _ => panic!("expected pieces"),
    };
    let pieces = pieces(&frames);
    assert_eq!(
        pieces.iter().map(|(sequence, more, chunk)| (*sequence, *more, chunk.len())).collect::<Vec<_>>(),
        vec![(0, true, 44), (1, true, 44), (2, false, 12)]
    );
    let mut transfer = Reassembly::new();
    for (sequence, more, chunk) in pieces {
        match transfer.take(sequence, more, &chunk) {
            SegmentOutcome::Accepted(taken) => {
                assert!(more);
                assert_eq!(taken, sequence);
            }
            SegmentOutcome::Complete(_, whole) => assert_eq!(whole, data),
            _ => panic!("refused a piece"),
        }
    }
}

#[test]
fn a_request_that_cannot_be_cut_is_refused_at_once() {
    assert!(matches!(
        split_request(
            &small_peer(Segmentation::Transmit),
            3,
            ConfirmedServiceChoice::WriteProperty,
            vec![0; 45],
        ),
        Err(ClientError::Abort(AbortReason::SegmentationNotSupported))
    ));
    assert!(matches!(
        split_request(
            &small_peer(Segmentation::Both),
            3,
            ConfirmedServiceChoice::WriteProperty,
            vec![0; 44 * 64 + 1],
        ),
        Err(ClientError::Abort(AbortReason::ApduTooLong))
    ));
    assert!(matches!(
        split_request(
            &small_peer(Segmentation::Both),
            3,
            ConfirmedServiceChoice::WriteProperty,
            vec![0; 44 * 64],
        ),
        Ok(RequestFrames::Segmented(frames)) if frames.len() == 64
    ));
}

#[test]
fn repeats_gaps_and_bad_starts_are_told_apart() {
    let mut transfer = Reassembly::new();
    assert!(matches!(
        transfer.take(1, true, &vec![1]),
        SegmentOutcome::Abandon(AbortReason::InvalidApduInThisState)
    ));
    assert!(matches!(transfer.take(0, true, &vec![1]), SegmentOutcome::Accepted(0)));
    assert!(matches!(transfer.take(0, true, &vec![1]), SegmentOutcome::Repeat));
    assert!(matches!(transfer.take(2, true, &vec![1]), SegmentOutcome::Missing(0)));
    assert_eq!(transfer.data, vec![1]);
    for sequence in 1..64 {
        assert!(matches!(
            transfer.take(sequence, true, &vec![1]),
            SegmentOutcome::Accepted(_)
        ));
    }
    assert!(matches!(
        transfer.take(64, false, &vec![1]),
        SegmentOutcome::Abandon(AbortReason::BufferOverflow)
    ));
}

#[test]
fn the_window_moves_behind_what_was_acknowledged() {
    let frames = match split_request(
        &small_peer(Segmentation::Both),
        3,
        ConfirmedServiceChoice::WriteProperty,
        vec![0; 44 * 5],
    ) {
        Ok(RequestFrames::Segmented(frames)) => frames,
        _ => panic!("expected pieces"),
    };
    let mut outbound = OutboundSegments {
        frames,
        acked: None,
        window: 1,
    };
    assert_eq!(outbound.window_after_ack(), (0, 1));
    outbound.acknowledge(0, 3);
    assert_eq!(outbound.window_after_ack(), (1, 4));
    assert_eq!(pieces(&outbound.in_flight()).len(), 3);
    outbound.acknowledge(3, 0);
    assert_eq!(outbound.window_after_ack(), (4, 5));
    assert!(!outbound.all_acked());
    outbound.acknowledge(4, 3);
    assert!(outbound.all_acked());
}

// ---------------------------------------------------------------------------
// The endpoint
// ---------------------------------------------------------------------------

const TIMEOUT: u64 = 1000;

fn request(last: u8, response: u64) -> EndpointCommand {
    EndpointCommand::Confirmed {
        target: target(last, None),
        service_choice: ConfirmedServiceChoice::ReadProperty,
        service_data: vec![1, 2, 3],
        response,
    }
}

fn complex_ack(
    invoke_id: u8,
    segmented: bool,
    more_follows: bool,
    sequence_number: Option<u8>,
    service_data: Vec<u8>,
) -> Apdu {
    Apdu::ComplexAck {
        segmented,
        more_follows,
        invoke_id,
        sequence_number,
        proposed_window_size: None,
        service_choice: ConfirmedServiceChoice::ReadProperty,
        service_data,
    }
}

fn answer(apdu: Apdu) -> Incoming {
    Incoming::Application {
        apdu,
        route: None,
        notification: None,
    }
}

fn sent_id(actions: &Vec<Action>) -> u8 {
    match &actions[..] {
        [Action::Send {
            packet:
                Packet {
                    apdu: Apdu::ConfirmedRequest { invoke_id, .. },
                    ..
                },
            transaction: Some(_),
            ..
        }] => *invoke_id,
        _ => panic!("expected one request"),
    }
}

#[test]
fn an_answer_reaches_the_caller_that_asked() {
    let mut endpoint = Endpoint::new(TIMEOUT, 2);
    let none = vec![];
    let first = sent_id(&endpoint.handle_command(request(1, 10), 0, &none));
    let second = sent_id(&endpoint.handle_command(request(1, 11), 0, &none));
    assert_ne!(first, second);

    // Another peer's answer with the same number is not taken.
    assert!(endpoint
        .handle_packet(peer(2), answer(complex_ack(first, false, false, None, vec![5])), 1)
        .is_empty());

    let actions = endpoint.handle_packet(
        peer(1),
        answer(complex_ack(second, false, false, None, vec![5])),
        1,
    );
    assert!(matches!(
        &actions[..],
        [Action::Answer { response: 11, result: Ok(data) }] if *data == vec![5]
    ));

    // Answered once, so a second copy reaches nobody.
    assert!(endpoint
        .handle_packet(peer(1), answer(complex_ack(second, false, false, None, vec![5])), 2)
        .is_empty());
}

#[test]
fn an_answer_to_another_service_is_not_taken() {
    let mut endpoint = Endpoint::new(TIMEOUT, 2);
    let id = sent_id(&endpoint.handle_command(request(1, 10), 0, &vec![]));
    assert!(endpoint
        .handle_packet(
            peer(1),
            answer(Apdu::SimpleAck {
                invoke_id: id,
                service_choice: 15,
            }),
            1
        )
        .is_empty());
}

#[test]
fn a_silent_peer_is_asked_again_and_then_given_up() {
    let mut endpoint = Endpoint::new(TIMEOUT, 1);
    let none = vec![];
    let id = sent_id(&endpoint.handle_command(request(1, 10), 0, &none));
    assert_eq!(endpoint.next_deadline(), Some(TIMEOUT));
    assert!(endpoint.handle_timeouts(TIMEOUT - 1, &none).is_empty());
    assert_eq!(sent_id(&endpoint.handle_timeouts(TIMEOUT, &none)), id);
    let actions = endpoint.handle_timeouts(2 * TIMEOUT, &none);
    assert!(matches!(
        &actions[..],
        [Action::Answer { response: 10, result: Err(ClientError::Timeout) }]
    ));
    assert_eq!(endpoint.next_deadline(), None);

    // A late answer reaches nobody, and its number is held back for a while.
    assert!(endpoint
        .handle_packet(
            peer(1),
            answer(complex_ack(id, false, false, None, vec![5])),
            2 * TIMEOUT + 1
        )
        .is_empty());
    assert_eq!(endpoint.transaction_budget(), 2 * TIMEOUT);
    for response in 0..255 {
        let other = sent_id(&endpoint.handle_command(
            request(1, 100 + response),
            2 * TIMEOUT + 2,
            &none,
        ));
        assert_ne!(other, id);
    }
    let full = endpoint.handle_command(request(1, 999), 2 * TIMEOUT + 3, &none);
    assert!(matches!(
        &full[..],
        [Action::Answer { response: 999, result: Err(ClientError::TooManyTransactions) }]
    ));
    // The numbers are a budget for each peer.
    sent_id(&endpoint.handle_command(request(2, 1000), 2 * TIMEOUT + 3, &none));
    // And the one held back is free again in time.
    assert_eq!(
        sent_id(&endpoint.handle_command(request(1, 1001), 4 * TIMEOUT, &none)),
        id
    );
}

#[test]
fn a_response_in_pieces_is_acknowledged_piece_by_piece() {
    let mut endpoint = Endpoint::new(TIMEOUT, 2);
    let none = vec![];
    let id = sent_id(&endpoint.handle_command(request(1, 10), 0, &none));
    let actions = endpoint.handle_packet(
        peer(1),
        answer(complex_ack(id, true, true, Some(0), vec![1, 2])),
        1,
    );
    assert!(matches!(
        &actions[..],
        [Action::Send {
            packet: Packet {
                apdu: Apdu::SegmentAck {
                    negative: false,
                    server: false,
                    sequence_number: 0,
                    window_size: 1,
                    ..
                },
                ..
            },
            transaction: Some(_),
            ..
        }]
    ));
    // A gap is refused, and a timeout repeats that acknowledgement.
    let actions = endpoint.handle_packet(
        peer(1),
        answer(complex_ack(id, true, true, Some(5), vec![9])),
        2,
    );
    assert!(matches!(
        &actions[..],
        [Action::Send {
            packet: Packet {
                apdu: Apdu::SegmentAck { negative: true, sequence_number: 0, .. },
                ..
            },
            ..
        }]
    ));
    let actions = endpoint.handle_timeouts(2 + TIMEOUT, &none);
    assert!(matches!(
        &actions[..],
        [Action::Send {
            packet: Packet { apdu: Apdu::SegmentAck { negative: true, .. }, .. },
            ..
        }]
    ));
    let actions = endpoint.handle_packet(
        peer(1),
        answer(complex_ack(id, true, false, Some(1), vec![3])),
        3,
    );
    assert!(matches!(
        &actions[..],
        [
            Action::Send { transaction: None, .. },
            Action::Answer { response: 10, result: Ok(data) },
        ] if *data == vec![1, 2, 3]
    ));
}

#[test]
fn a_transfer_that_cannot_be_followed_is_aborted() {
    let mut endpoint = Endpoint::new(TIMEOUT, 2);
    let id = sent_id(&endpoint.handle_command(request(1, 10), 0, &vec![]));
    let actions = endpoint.handle_packet(
        peer(1),
        answer(complex_ack(id, true, true, None, vec![1])),
        1,
    );
    assert!(matches!(
        &actions[..],
        [
            Action::Send {
                packet: Packet {
                    apdu: Apdu::Abort {
                        server: false,
                        abort_reason: AbortReason::InvalidApduInThisState,
                        ..
                    },
                    ..
                },
                ..
            },
            Action::Answer {
                response: 10,
                result: Err(ClientError::Abort(AbortReason::InvalidApduInThisState)),
            },
        ]
    ));
}

#[test]
fn a_request_in_pieces_follows_the_peers_window() {
    let mut endpoint = Endpoint::new(TIMEOUT, 2);
    let none = vec![];
    let actions = endpoint.handle_command(
        EndpointCommand::Confirmed {
            target: small_peer(Segmentation::Both),
            service_choice: ConfirmedServiceChoice::WriteProperty,
            service_data: vec![7; 44 * 3],
            response: 10,
        },
        0,
        &none,
    );
    let id = sent_id(&actions);
    let acknowledge = |sequence_number| {
        answer(Apdu::SegmentAck {
            negative: false,
            server: true,
            invoke_id: id,
            sequence_number,
            window_size: 4,
        })
    };
    assert_eq!(endpoint.handle_packet(peer(1), acknowledge(0), 1).len(), 2);
    assert!(endpoint.handle_packet(peer(1), acknowledge(9), 2).is_empty());
    assert_eq!(endpoint.handle_timeouts(1 + TIMEOUT, &none).len(), 2);
    assert!(endpoint.handle_packet(peer(1), acknowledge(2), 3).is_empty());
    // Nothing is left to repeat: the peer owes the response.
    assert!(endpoint.handle_timeouts(3 + TIMEOUT, &none).is_empty());
    let actions = endpoint.handle_packet(
        peer(1),
        answer(Apdu::SimpleAck {
            invoke_id: id,
            service_choice: 15,
        }),
        4 + TIMEOUT,
    );
    assert!(matches!(
        &actions[..],
        [Action::Answer { response: 10, result: Ok(_) }]
    ));
}

fn notification(device: u32) -> CovNotification {
    CovNotification {
        subscriber_process_identifier: 777,
        initiating_device: ObjectIdentifier::new(ObjectType::Device, device),
        monitored_object: ObjectIdentifier::new(ObjectType::AnalogValue, 1),
        time_remaining: 60,
        list_of_values: vec![],
    }
}

fn subscribe(device: u32, sink: u64, response: u64) -> EndpointCommand {
    EndpointCommand::SubscribeCov {
        target: target(1, None),
        key: CovKey {
            device,
            object: ObjectIdentifier::new(ObjectType::AnalogValue, 1),
        },
        service_data: vec![],
        sink,
        response,
    }
}

#[test]
fn notifications_reach_the_subscription_for_their_object() {
    let mut endpoint = Endpoint::new(TIMEOUT, 2);
    let none = vec![];
    sent_id(&endpoint.handle_command(subscribe(5, 50, 10), 0, &none));
    let actions = endpoint.handle_packet(
        peer(1),
        Incoming::Unconfirmed {
            device: false,
            notification: Some(notification(5)),
        },
        1,
    );
    assert!(matches!(&actions[..], [Action::Notify { sink: 50, .. }]));
    assert!(endpoint
        .handle_packet(
            peer(1),
            Incoming::Unconfirmed {
                device: false,
                notification: Some(notification(6)),
            },
            1
        )
        .is_empty());

    // Registering the same key again replaces the channel.
    let actions = endpoint.handle_command(subscribe(5, 51, 11), 2, &none);
    assert!(matches!(
        &actions[..],
        [Action::Close { sink: 50 }, Action::Send { .. }]
    ));

    // A closed channel is forgotten.
    endpoint.remove_cancelled(&vec![51]);
    assert!(endpoint
        .handle_packet(
            peer(1),
            Incoming::Unconfirmed {
                device: false,
                notification: Some(notification(5)),
            },
            3
        )
        .is_empty());
}

fn confirmed_notification(segmented: bool, readable: bool) -> Incoming {
    Incoming::Application {
        apdu: Apdu::ConfirmedRequest {
            segmented,
            more_follows: false,
            segmented_response_accepted: false,
            max_segments: bacnet_rs::client::MaxSegments::Unspecified,
            max_response_size: MaxApduSize::Up480,
            invoke_id: 9,
            sequence_number: None,
            proposed_window_size: None,
            service_choice: ConfirmedServiceChoice::ConfirmedCovNotification,
            service_data: vec![],
        },
        route: Some(NetworkAddress::new(7, vec![3])),
        notification: if readable { Some(notification(5)) } else { None },
    }
}

#[test]
fn a_confirmed_notification_is_always_replied_to() {
    let mut endpoint = Endpoint::new(TIMEOUT, 2);
    let actions = endpoint.handle_packet(peer(1), confirmed_notification(false, true), 0);
    match &actions[..] {
        [Action::Send { packet, transaction: None, .. }] => {
            assert_eq!(packet.destination, Some(NetworkAddress::new(7, vec![3])));
            assert_eq!(packet.hop_count, Some(255));
            assert!(!packet.expecting_reply);
            assert_eq!(
                packet.apdu,
                Apdu::SimpleAck {
                    invoke_id: 9,
                    service_choice: 1,
                }
            );
        }
        _ => panic!("expected one reply"),
    }
    let actions = endpoint.handle_packet(peer(1), confirmed_notification(false, false), 0);
    assert!(matches!(
        &actions[..],
        [Action::Send {
            packet: Packet {
                apdu: Apdu::Reject { invoke_id: 9, reject_reason: RejectReason::InvalidTag },
                ..
            },
            ..
        }]
    ));
    let actions = endpoint.handle_packet(peer(1), confirmed_notification(true, true), 0);
    assert!(matches!(
        &actions[..],
        [Action::Send {
            packet: Packet {
                apdu: Apdu::Abort {
                    server: true,
                    invoke_id: 9,
                    abort_reason: AbortReason::SegmentationNotSupported,
                },
                ..
            },
            ..
        }]
    ));
}

#[test]
fn discoveries_collect_until_their_time_is_up() {
    let mut endpoint = Endpoint::new(TIMEOUT, 2);
    let none = vec![];
    let actions = endpoint.handle_command(
        EndpointCommand::DiscoverDevices {
            frame: vec![1],
            destination: peer(255),
            sink: 70,
        },
        0,
        &none,
    );
    assert!(matches!(
        &actions[..],
        [Action::Discover { sink: 70, frame, .. }] if *frame == vec![1]
    ));
    endpoint.handle_command(
        EndpointCommand::DiscoverRouters {
            frame: vec![2],
            destination: peer(255),
            sink: 71,
        },
        10,
        &none,
    );
    let announce = || Incoming::Unconfirmed {
        device: true,
        notification: None,
    };
    assert!(matches!(
        &endpoint.handle_packet(peer(1), announce(), 20)[..],
        [Action::Offer { sink: 70 }]
    ));
    assert!(matches!(
        &endpoint.handle_packet(peer(1), Incoming::NetworkMessage { router: true }, 20)[..],
        [Action::Offer { sink: 71 }]
    ));
    assert!(endpoint
        .handle_packet(peer(1), Incoming::NetworkMessage { router: false }, 20)
        .is_empty());
    assert!(matches!(
        &endpoint.handle_timeouts(TIMEOUT, &none)[..],
        [Action::Close { sink: 70 }]
    ));
    assert!(endpoint.handle_packet(peer(1), announce(), TIMEOUT + 1).is_empty());
    assert!(matches!(
        &endpoint.discovery_failed(71, ClientError::Io("down".to_string()))[..],
        [Action::Fail { sink: 71, error: ClientError::Io(_) }]
    ));
    assert_eq!(endpoint.next_deadline(), None);
}

#[test]
fn everybody_who_waits_hears_of_the_end() {
    let mut endpoint = Endpoint::new(TIMEOUT, 2);
    let none = vec![];
    endpoint.handle_command(request(1, 10), 0, &none);
    endpoint.handle_command(
        EndpointCommand::DiscoverDevices {
            frame: vec![1],
            destination: peer(255),
            sink: 70,
        },
        0,
        &none,
    );
    let actions = endpoint.fail_all(Some("network is unreachable"));
    assert!(matches!(
        &actions[..],
        [
            Action::Answer { response: 10, result: Err(ClientError::Io(text)) },
            Action::Fail { sink: 70, error: ClientError::Io(_) },
        ] if text == "network is unreachable"
    ));
    assert!(endpoint.fail_all(None).is_empty());
}

#[test]
fn a_refused_packet_fails_its_transaction_only() {
    let mut endpoint = Endpoint::new(TIMEOUT, 2);
    let none = vec![];
    let id = sent_id(&endpoint.handle_command(request(1, 10), 0, &none));
    let key = TransactionKey {
        peer: peer(1),
        invoke_id: id,
    };
    assert!(matches!(
        &endpoint.send_failed(key, ClientError::Io("refused".to_string()))[..],
        [Action::Answer { response: 10, result: Err(ClientError::Io(_)) }]
    ));
    assert!(endpoint
        .send_failed(key, ClientError::Io("refused".to_string()))
        .is_empty());
}

#[test]
fn cancelled_requests_are_not_started_and_not_repeated() {
    let mut endpoint = Endpoint::new(TIMEOUT, 2);
    assert!(endpoint.handle_command(request(1, 10), 0, &vec![10]).is_empty());
    sent_id(&endpoint.handle_command(request(1, 11), 0, &vec![]));
    assert!(endpoint.handle_timeouts(TIMEOUT, &vec![11]).is_empty());
    assert_eq!(endpoint.next_deadline(), None);
}

// ---------------------------------------------------------------------------
// Collecting
// ---------------------------------------------------------------------------

#[test]
fn routers_that_answer_twice_are_merged_and_sorted() {
    let mut routers = vec![];
    for (last, networks) in [(9, vec![30, 10]), (2, vec![5]), (9, vec![20, 10])] {
        merge_router(
            &mut routers,
            DiscoveredRouter {
                address: peer(last),
                networks,
            },
        );
    }
    let routers = sort_routers(routers);
    assert_eq!(routers.len(), 2);
    assert_eq!(routers[0].address, peer(2));
    assert_eq!(routers[1].networks, vec![10, 20, 30]);
}

#[test]
fn four_octet_addresses_come_before_sixteen_octet_ones() {
    let wide = SocketAddress::V6 {
        address: 0,
        port: 0,
        flow_info: 0,
        scope: 0,
    };
    let near = SocketAddress::V4 {
        address: u32::MAX,
        port: u16::MAX,
    };
    let sorted = sort_routers(vec![
        DiscoveredRouter {
            address: wide,
            networks: vec![],
        },
        DiscoveredRouter {
            address: near,
            networks: vec![],
        },
    ]);
    assert_eq!(sorted[0].address, near);
    assert_eq!(sorted[1].address, wide);
}

#[test]
fn devices_are_noted_once() {
    let mut sightings = Sightings::new();
    assert!(sightings.note(5));
    assert!(!sightings.note(5));
    assert!(sightings.note(6));
    assert_eq!(who_is_range(Some(1), Some(2)), Some((1, 2)));
    assert_eq!(who_is_range(Some(1), None), None);
}

#[test]
fn a_read_is_answered_by_the_same_property_only() {
    let asked = PropertyAt {
        object: ObjectIdentifier::new(ObjectType::Device, 5),
        property: PropertyIdentifier::ObjectList,
        array_index: None,
    };
    assert!(asked.is_answered_by(&asked));
    assert!(!asked.is_answered_by(&PropertyAt {
        array_index: Some(0),
        ..asked
    }));
}

#[test]
fn frames_are_told_apart_by_header_and_first_octet() {
    assert_eq!(FrameKind::of(true, &[0x10, 0]), FrameKind::NetworkMessage);
    assert_eq!(FrameKind::of(false, &[0x10, 0]), FrameKind::Unconfirmed);
    assert_eq!(FrameKind::of(false, &[0x30, 1]), FrameKind::Application);
    assert_eq!(FrameKind::of(false, &[]), FrameKind::Application);
}

#[test]
fn only_a_whole_notification_has_parameters_to_read() {
    let unasked = |service_choice| Apdu::UnconfirmedRequest {
        service_choice,
        service_data: vec![1, 2],
    };
    assert_eq!(
        notification_parameters(&unasked(UnconfirmedServiceChoice::UnconfirmedCOVNotification)),
        Some(&vec![1, 2])
    );
    assert_eq!(notification_parameters(&unasked(UnconfirmedServiceChoice::IAm)), None);
    let asked = |segmented| Apdu::ConfirmedRequest {
        segmented,
        more_follows: segmented,
        segmented_response_accepted: false,
        max_segments: MaxSegments::SixtyFour,
        max_response_size: MaxApduSize::Up1476,
        invoke_id: 9,
        sequence_number: None,
        proposed_window_size: None,
        service_choice: ConfirmedServiceChoice::ConfirmedCovNotification,
        service_data: vec![3],
    };
    assert_eq!(notification_parameters(&asked(false)), Some(&vec![3]));
    assert_eq!(notification_parameters(&asked(true)), None);
}

#[test]
fn peers_number_their_requests_apart() {
    let mut endpoint = Endpoint::new(1000, 0);
    let none = Vec::new();
    for response in 0..256u64 {
        let actions = endpoint.handle_command(
            EndpointCommand::Confirmed {
                target: target(1, None),
                service_choice: ConfirmedServiceChoice::ReadProperty,
                service_data: vec![],
                response,
            },
            0,
            &none,
        );
        assert!(matches!(actions[0], Action::Send { .. }));
    }
    assert_eq!(endpoint.reserve_invoke_id(peer(1), 0), None);
    assert!(endpoint.reserve_invoke_id(peer(2), 0).is_some());
    let actions = endpoint.handle_command(
        EndpointCommand::Confirmed {
            target: target(1, None),
            service_choice: ConfirmedServiceChoice::ReadProperty,
            service_data: vec![],
            response: 256,
        },
        0,
        &none,
    );
    assert!(matches!(
        actions[0],
        Action::Answer {
            response: 256,
            result: Err(ClientError::TooManyTransactions)
        }
    ));
}

#[test]
fn an_object_list_holds_identifiers_only() {
    let first = ObjectIdentifier::new(ObjectType::Device, 7);
    let second = ObjectIdentifier::new(ObjectType::AnalogInput, 1);
    let mut values = vec![
        PropertyValue::ObjectIdentifier(first),
        PropertyValue::ObjectIdentifier(second),
    ];
    assert_eq!(object_list(&values), Ok(vec![first, second]));
    values.push(PropertyValue::Null);
    values.push(PropertyValue::Unsigned(1));
    assert_eq!(object_list(&values), Err(2));
    assert_eq!(object_list(&vec![]), Ok(vec![]));
}

#[test]
fn segments_that_come_twice_or_out_of_turn_add_nothing() {
    let mut endpoint = Endpoint::new(TIMEOUT, 2);
    let none = vec![];
    let id = sent_id(&endpoint.handle_command(request(1, 10), 0, &none));
    let mut answers = Vec::new();
    let mut acknowledged = Vec::new();
    for (at, (sequence, more_follows, data)) in [
        (0, true, vec![1, 2]),
        (0, true, vec![1, 2]),
        (3, true, vec![9]),
        (0, true, vec![8]),
        (1, true, vec![3]),
        (1, true, vec![3]),
        (0, false, vec![7]),
        (2, false, vec![4, 5]),
    ]
    .into_iter()
    .enumerate()
    {
        for action in endpoint.handle_packet(
            peer(1),
            answer(complex_ack(id, true, more_follows, Some(sequence), data)),
            at as u64,
        ) {
            match action {
                Action::Send { packet, .. } => match packet.apdu {
                    Apdu::SegmentAck { negative, sequence_number, .. } => {
                        acknowledged.push((sequence_number, negative))
                    }
                    other => panic!("{other:?}"),
                },
                Action::Answer { response, result } => answers.push((response, result.unwrap())),
                _ => panic!("neither sent nor answered"),
            }
        }
    }
    assert_eq!(
        acknowledged,
        vec![
            (0, false),
            (0, false),
            (0, true),
            (0, true),
            (1, false),
            (1, false),
            (1, true),
            (2, false),
        ]
    );
    assert_eq!(answers, vec![(10, vec![1, 2, 3, 4, 5])]);
}
