//! The shutdown protocol, the workers' decision logic, the composer's
//! launch and join rules, and the wire format's round trip.

use translucence::codec::{decode_packet, encode_packet, CodecError};
use translucence::composer::{collect_results, launch_decision, LaunchDecision};
use translucence::proc_fs::net::TcpStat;
use translucence::proc_fs::stats::ProcStatm;
use translucence::publisher::{
    run_publisher_model, tick_action, Metric, MetricPacket, MetricSender, TickAction, TickObs,
};
use translucence::server::{server_wakeup_step, wait_for_stop, HandlerKind, RouterRunner, ServerStep};
use translucence::signals::{bridge_on_recv, broadcast_shutdown, ShutdownFlag, Signal};
use translucence::MetricError;

fn sample_tcp() -> TcpStat {
    TcpStat {
        rto_algorithm: 1,
        rto_min: 200,
        rto_max: 120000,
        max_conn: -1,
        active_opens: 10,
        passive_opens: 20,
        attempt_fails: 30,
        establish_resets: 40,
        current_establish: 50,
        segments_received: 60,
        segments_sent: 70,
        segments_retransmitted: 80,
        segments_errors_received: 90,
        resets_sent: 100,
    }
}

#[test]
fn shutdown_flag_fires_once_and_stays() {
    let mut f = ShutdownFlag::new();
    assert!(!f.is_set());
    f.trigger();
    assert!(f.is_set());
    f.trigger();
    assert!(f.is_set());
}

#[test]
fn bridge_treats_closed_channel_as_shutdown() {
    let mut f = ShutdownFlag::new();
    bridge_on_recv(&mut f, None);
    assert!(f.is_set());

    let mut g = ShutdownFlag::new();
    bridge_on_recv(&mut g, Some(Signal::Terminate));
    assert!(g.is_set());
}

#[test]
fn broadcast_is_idempotent() {
    let mut flags = vec![ShutdownFlag::new(), ShutdownFlag { fired: true }, ShutdownFlag::new()];
    broadcast_shutdown(&mut flags, Signal::Interrupt);
    assert_eq!(flags, vec![
        ShutdownFlag { fired: true },
        ShutdownFlag { fired: true },
        ShutdownFlag { fired: true },
    ]);
    let after_first = flags.clone();
    broadcast_shutdown(&mut flags, Signal::Terminate);
    assert_eq!(flags, after_first);
}

#[test]
fn tick_decisions_follow_the_state_machine() {
    assert_eq!(tick_action(TickObs { shutdown: true, capture_ok: true }), TickAction::Stop);
    assert_eq!(tick_action(TickObs { shutdown: true, capture_ok: false }), TickAction::Stop);
    assert_eq!(tick_action(TickObs { shutdown: false, capture_ok: false }), TickAction::Retry);
    assert_eq!(tick_action(TickObs { shutdown: false, capture_ok: true }), TickAction::Publish);
}

#[test]
fn publisher_stops_at_shutdown_and_retries_failures() {
    let ticks = vec![
        TickObs { shutdown: false, capture_ok: true },
        TickObs { shutdown: false, capture_ok: false },
        TickObs { shutdown: false, capture_ok: true },
        TickObs { shutdown: true, capture_ok: true },
        TickObs { shutdown: false, capture_ok: true },
    ];
    let trace = run_publisher_model(&ticks);
    assert_eq!(trace, vec![
        TickAction::Publish,
        TickAction::Retry,
        TickAction::Publish,
        TickAction::Stop,
    ]);
}

#[test]
fn publisher_consumes_all_ticks_without_shutdown() {
    let ticks = vec![
        TickObs { shutdown: false, capture_ok: true },
        TickObs { shutdown: false, capture_ok: true },
    ];
    let trace = run_publisher_model(&ticks);
    assert_eq!(trace, vec![TickAction::Publish, TickAction::Publish]);
}

#[test]
fn launch_aborts_on_the_first_setup_failure() {
    let setups: Vec<Result<(), MetricError>> = vec![
        Ok(()),
        Err(MetricError::UDPError(String::from("no socket"))),
        Err(MetricError::UDPError(String::from("later"))),
    ];
    match launch_decision(&setups) {
        LaunchDecision::Abort { failed_runner } => assert_eq!(failed_runner, 1),
        LaunchDecision::Start { .. } => panic!("launch must abort"),
    }
}

#[test]
fn launch_starts_every_runner_when_setups_succeed() {
    let setups: Vec<Result<(), MetricError>> = vec![Ok(()), Ok(())];
    match launch_decision(&setups) {
        LaunchDecision::Start { threads_to_spawn, listeners_to_register } => {
            assert_eq!(threads_to_spawn, 2);
            assert_eq!(listeners_to_register, 2);
        },
        LaunchDecision::Abort { .. } => panic!("launch must start"),
    }
}

#[test]
fn join_reports_the_first_error() {
    let results: Vec<Result<(), String>> = vec![
        Ok(()),
        Err(String::from("first")),
        Err(String::from("second")),
    ];
    assert_eq!(collect_results(results), Err(String::from("first")));
    let all_ok: Vec<Result<(), String>> = vec![Ok(()), Ok(())];
    assert_eq!(collect_results(all_ok), Ok(()));
}

#[test]
fn wait_ends_at_the_first_true_flag() {
    assert_eq!(wait_for_stop(&vec![false, false, true, true]), Some(2));
    assert_eq!(wait_for_stop(&vec![true]), Some(0));
    assert_eq!(wait_for_stop(&vec![false, false]), None);
}

#[test]
fn server_closes_only_on_a_set_flag() {
    assert_eq!(server_wakeup_step(true), ServerStep::CloseListener);
    assert_eq!(server_wakeup_step(false), ServerStep::KeepWaiting);
}

#[test]
fn router_registers_the_four_routes() {
    let r = RouterRunner::new();
    assert_eq!(r.routes.len(), 4);
    assert_eq!(r.routes[0].pattern, "/proc/:pid/statm");
    assert_eq!(r.routes[0].handler, HandlerKind::Statm);
    assert_eq!(r.routes[1].pattern, "/proc/:pid/io");
    assert_eq!(r.routes[1].handler, HandlerKind::Io);
    assert_eq!(r.routes[2].pattern, "/proc/:pid/stack");
    assert_eq!(r.routes[2].handler, HandlerKind::Stack);
    assert_eq!(r.routes[3].pattern, "/net/tcpstats");
    assert_eq!(r.routes[3].handler, HandlerKind::TcpStats);
}

#[test]
fn sender_packages_its_origin_and_sample() {
    let sender = MetricSender::new(
        String::from("127.0.0.1:60001"),
        String::from("test-sender"),
        10,
    );
    assert_eq!(sender.metric_addr, "127.0.0.1:60001");
    assert_eq!(sender.origin, "test-sender");
    assert_eq!(sender.publish_interval, 10);
    assert!(!sender.shutdown.fired);

    let p = sender.make_packet(Metric::Network(sample_tcp()), 1700000000);
    assert_eq!(p.origin, "test-sender");
    assert_eq!(p.timestamp, 1700000000);
    assert_eq!(p.data, Metric::Network(sample_tcp()));

    let q = sender.packet_now(Metric::Network(sample_tcp()));
    assert_eq!(q.origin, "test-sender");
    assert_eq!(q.data, Metric::Network(sample_tcp()));
}

#[test]
fn network_packet_round_trips() {
    let p = MetricPacket {
        origin: String::from("test-sender"),
        timestamp: 1700000000,
        data: Metric::Network(sample_tcp()),
    };
    let bytes = encode_packet(&p);
    let q = decode_packet(&bytes).unwrap();
    assert_eq!(q.origin, p.origin);
    assert_eq!(q.timestamp, p.timestamp);
    assert_eq!(q.data, p.data);
    assert_eq!(q, p);
}

#[test]
fn process_packet_round_trips() {
    let statm = ProcStatm { size: 37972, resident: 437, share: 315, text: 9, lib: 0, data: 121, dt: 0 };
    let p = MetricPacket {
        origin: String::from("translucence"),
        timestamp: -1,
        data: Metric::Process(statm),
    };
    let bytes = encode_packet(&p);
    let q = decode_packet(&bytes).unwrap();
    assert_eq!(q, p);
}

#[test]
fn two_runner_lifecycle_in_the_model() {
    // Both runners set up successfully, so the composer starts a thread and
    // registers a signal listener for each.
    let setups: Vec<Result<(), MetricError>> = vec![Ok(()), Ok(())];
    match launch_decision(&setups) {
        LaunchDecision::Start { threads_to_spawn, listeners_to_register } => {
            assert_eq!(threads_to_spawn, 2);
            assert_eq!(listeners_to_register, 2);
        },
        LaunchDecision::Abort { .. } => panic!("launch must start"),
    }

    // The publisher publishes its first packet before any signal arrives.
    let sender = MetricSender::new(
        String::from("127.0.0.1:60001"),
        String::from("translucence"),
        1,
    );
    let packet = sender.make_packet(Metric::Network(sample_tcp()), 1);
    let received = decode_packet(&encode_packet(&packet)).unwrap();
    assert_eq!(received.origin, "translucence");
    assert_eq!(received.data, Metric::Network(sample_tcp()));

    // One interrupt reaches both bridges; both flags end set.
    let mut bridges = vec![ShutdownFlag::new(), ShutdownFlag::new()];
    broadcast_shutdown(&mut bridges, Signal::Interrupt);
    assert!(bridges[0].is_set() && bridges[1].is_set());

    // The publisher's loop stops at its next checkpoint, the server's wait
    // ends at its next wakeup, and joining both reports success.
    let trace = run_publisher_model(&vec![
        TickObs { shutdown: false, capture_ok: true },
        TickObs { shutdown: true, capture_ok: true },
    ]);
    assert_eq!(trace, vec![TickAction::Publish, TickAction::Stop]);
    assert_eq!(wait_for_stop(&vec![false, true]), Some(1));
    let joined: Vec<Result<(), MetricError>> = vec![Ok(()), Ok(())];
    assert!(collect_results(joined).is_ok());
}

#[test]
fn decoder_rejects_malformed_datagrams() {
    assert_eq!(decode_packet(&vec![]), Err(CodecError::Malformed));
    assert_eq!(decode_packet(&vec![0u8; 7]), Err(CodecError::Malformed));

    let p = MetricPacket {
        origin: String::from("x"),
        timestamp: 0,
        data: Metric::Process(ProcStatm {
            size: 1,
            resident: 2,
            share: 3,
            text: 4,
            lib: 5,
            data: 6,
            dt: 7,
        }),
    };
    let good = encode_packet(&p);
    let mut truncated = good.clone();
    truncated.pop();
    assert_eq!(decode_packet(&truncated), Err(CodecError::Malformed));

    let mut bad_tag = good.clone();
    // the tag byte sits after the length field, the one-byte origin and the
    // nine-byte timestamp
    bad_tag[8 + 1 + 9] = 9;
    assert_eq!(decode_packet(&bad_tag), Err(CodecError::Malformed));
}
