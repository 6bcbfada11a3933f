use mediafx::client::{ClientStep, FrameClient, RenderRequest};
use mediafx::layout::{FrameError, RenderSize};
use mediafx::message::{RenderData, RenderFrame};
use mediafx::server::{FailurePolicy, FrameServer, RenderError, ServerHandshake};
use mediafx::wire::{decode_ack, decode_frame, decode_initialize};

const NO_PARAMS: RenderData = RenderData { time: 0, param1: 0, param2: 0, param3: 0 };

/// Runs the handshake, the arena being a plain buffer both sides share.
fn connect(width: u32, height: u32, count: usize) -> (FrameServer, FrameClient, Vec<u8>) {
    let size = RenderSize::new(width, height, count);
    let arena = vec![0u8; size.memory_size()];
    let (handshake, init_bytes) = ServerHandshake::start(size, "arena".to_string(), "config".to_string());
    let (init, used) = decode_initialize(&init_bytes).unwrap();
    assert_eq!(used, init_bytes.len());
    assert_eq!(init.shmem_id(), "arena");
    let (client, ack_bytes) = FrameClient::accept(init);
    assert_eq!(client.config(), "config");
    assert_eq!(client.render_size(), size);
    let (ack, _) = decode_ack(&ack_bytes).unwrap();
    let server = handshake.on_ack(ack).unwrap();
    (server, client, arena)
}

fn receive_request(client: FrameClient, bytes: &[u8]) -> RenderRequest {
    let (message, used) = decode_frame(bytes).unwrap();
    assert_eq!(used, bytes.len());
    match client.render_frame(message) {
        ClientStep::Render(request) => request,
        ClientStep::Terminate => panic!("expected a render request"),
    }
}

/// The worker's renderer: the output is the elementwise sum of the sources.
fn sum_sources(request: &RenderRequest, arena: &mut [u8]) {
    let (frames, output) = request.get_frames_with_rendered_frame_mut(arena);
    for (i, b) in output.iter_mut().enumerate() {
        *b = frames.iter().map(|f| f[i]).sum();
    }
}

/// One render call with the sources filled with `a` and `b`; returns the
/// server and client back in their idle states and the output bytes.
fn render_sum(server: FrameServer, client: FrameClient, arena: &mut Vec<u8>, a: u8, b: u8) -> (FrameServer, FrameClient, Vec<u8>) {
    let frame = server.render_size().frame_bytecount();
    server.write_source_frame(arena, 0, &vec![a; frame]).unwrap();
    server.write_source_frame(arena, 1, &vec![b; frame]).unwrap();
    let (rendering, request_bytes) = server.render(NO_PARAMS);
    let request = receive_request(client, &request_bytes);
    sum_sources(&request, arena);
    let (client, ack_bytes) = request.commit();
    let (ack, _) = decode_ack(&ack_bytes).unwrap();
    let (server, result) = rendering.on_ack(ack);
    assert!(result.is_ok());
    let output = server.rendered_frame(arena).to_vec();
    (server, client, output)
}

#[test]
fn end_to_end_sum_of_two_sources() {
    let (server, client, mut arena) = connect(4, 1, 2);
    let (_server, _client, output) = render_sum(server, client, &mut arena, 10, 20);
    assert_eq!(output, vec![30u8; 16]);
}

#[test]
fn ten_consecutive_renders_see_fresh_sources() {
    let (mut server, mut client, mut arena) = connect(4, 1, 2);
    for n in 1u8..=10 {
        let (s, c, output) = render_sum(server, client, &mut arena, n, n + 1);
        assert_eq!(output, vec![2 * n + 1; 16]);
        server = s;
        client = c;
    }
}

#[test]
fn client_failure_is_reported_and_session_continues() {
    let (server, client, mut arena) = connect(4, 1, 2);
    let (rendering, request_bytes) = server.render(NO_PARAMS);
    let request = receive_request(client, &request_bytes);
    let (client, ack_bytes) = request.fail("boom".to_string());
    let (ack, _) = decode_ack(&ack_bytes).unwrap();
    let (server, result) = rendering.on_ack(ack);
    match result {
        Err(RenderError::Client(message)) => assert_eq!(message, "boom"),
        Ok(()) => panic!("expected a client error"),
    }
    let (_server, _client, output) = render_sum(server, client, &mut arena, 3, 4);
    assert_eq!(output, vec![7u8; 16]);
}

#[test]
fn terminate_ends_the_client_loop() {
    let (server, client, _arena) = connect(4, 1, 2);
    let bytes = server.terminate();
    assert_eq!(bytes, vec![1]);
    let (message, _) = decode_frame(&bytes).unwrap();
    assert_eq!(message, RenderFrame::Terminate);
    assert!(matches!(client.render_frame(message), ClientStep::Terminate));
}

#[test]
fn handshake_refusal_fails_construction() {
    let size = RenderSize::new(2, 2, 1);
    let (handshake, _) = ServerHandshake::start(size, "arena".to_string(), String::new());
    let ack = mediafx::message::RenderAck::failed("cannot open arena".to_string());
    match handshake.on_ack(ack) {
        Err(RenderError::Client(message)) => assert_eq!(message, "cannot open arena"),
        Ok(_) => panic!("expected the handshake to fail"),
    }
}

#[test]
fn render_parameters_reach_the_client() {
    let (server, client, _arena) = connect(2, 2, 0);
    let data = RenderData {
        time: 2.5f64.to_bits(),
        param1: 0.1f64.to_bits(),
        param2: (-7.0f64).to_bits(),
        param3: 1e10f64.to_bits(),
    };
    let (_rendering, bytes) = server.render(data);
    let request = receive_request(client, &bytes);
    assert_eq!(request.render_data(), data);
    assert_eq!(f64::from_bits(request.render_data().time), 2.5);
    assert_eq!(request.config(), "config");
    assert_eq!(request.render_size(), RenderSize::new(2, 2, 0));
}

#[test]
fn client_source_frame_access() {
    let (server, client, mut arena) = connect(1, 1, 2);
    server.write_source_frame(&mut arena, 0, &[1, 2, 3, 4]).unwrap();
    server.write_source_frame(&mut arena, 1, &[5, 6, 7, 8]).unwrap();
    assert_eq!(server.write_source_frame(&mut arena, 2, &[0; 4]), Err(FrameError::OutOfRange));
    let (_rendering, bytes) = server.render(NO_PARAMS);
    let request = receive_request(client, &bytes);
    assert_eq!(request.get_source_frame(&arena, 1).unwrap(), &[5, 6, 7, 8]);
    assert_eq!(request.get_source_frame(&arena, 2), Err(FrameError::OutOfRange));
    let frames = request.get_source_frames(&arena);
    assert_eq!(frames, vec![&[1u8, 2, 3, 4][..], &[5u8, 6, 7, 8][..]]);
    request.get_rendered_frame_mut(&mut arena).copy_from_slice(&[9, 9, 9, 9]);
    assert_eq!(&arena[8..], &[9, 9, 9, 9]);
}

#[test]
fn server_source_frame_mut() {
    let (server, _client, mut arena) = connect(1, 1, 2);
    server.get_source_frame_mut(&mut arena, 1).unwrap().fill(3);
    assert_eq!(arena, vec![0, 0, 0, 0, 3, 3, 3, 3, 0, 0, 0, 0]);
    assert!(server.get_source_frame_mut(&mut arena, 2).is_err());
}

#[test]
fn failure_policy_ends_after_limit() {
    let mut policy = FailurePolicy::new(Some(2));
    assert!(!policy.record(true));
    assert_eq!(policy.consecutive_failures(), 1);
    assert!(policy.record(true));
    assert_eq!(policy.consecutive_failures(), 2);
}

#[test]
fn failure_policy_success_resets_run() {
    let mut policy = FailurePolicy::new(Some(2));
    assert!(!policy.record(true));
    assert!(!policy.record(false));
    assert_eq!(policy.consecutive_failures(), 0);
    assert!(!policy.record(true));
}

#[test]
fn failure_policy_without_limit_never_ends() {
    let mut policy = FailurePolicy::new(None);
    for _ in 0..100 {
        assert!(!policy.record(true));
    }
    assert_eq!(policy.consecutive_failures(), 100);
}

#[test]
fn failure_policy_zero_limit_ends_at_once() {
    let mut policy = FailurePolicy::new(Some(0));
    assert!(policy.record(false));
}
