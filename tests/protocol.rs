use tcp_wow::client::{Client, ClientAction, ClientError, ClientPhase};
use tcp_wow::pow::{digest_meets_difficulty, leading_zero_nibbles, ChallengeSolver};
use tcp_wow::proto::{
    decode_challenge, decode_length, decode_solution, decode_solution_state, decode_text,
    decode_text_frame, encode_challenge, encode_length, encode_solution, encode_solution_state,
    frame_text, frame_varsize, Challenge, SolutionState, Transport, DEFAULT_DIFFICULTY,
};
use tcp_wow::server::{ClientState, ConnectionEvent, Server, ServerAction, ServerError};

fn zero_challenge(difficulty: u8) -> Challenge {
    Challenge { difficulty, value: [0u8; 16] }
}

fn digest(prefix: &[u8]) -> Vec<u8> {
    let mut d = prefix.to_vec();
    d.resize(32, 0xff);
    d
}

#[test]
fn nibble_scan_stops_at_low_nibble_of_first_byte() {
    let mut d = vec![0x0fu8];
    d.resize(32, 0);
    assert_eq!(leading_zero_nibbles(&d, 10), 1);
    assert_eq!(leading_zero_nibbles(&d, 64), 1);
}

#[test]
fn nibble_scan_counts_high_nibble_of_second_byte() {
    assert_eq!(leading_zero_nibbles(&digest(&[0x00, 0x0f]), 8), 3);
    assert_eq!(leading_zero_nibbles(&digest(&[0xf0]), 8), 0);
}

#[test]
fn nibble_scan_is_capped_by_difficulty() {
    let d = vec![0u8; 32];
    assert_eq!(leading_zero_nibbles(&d, 0), 2);
    assert_eq!(leading_zero_nibbles(&d, 1), 2);
    assert_eq!(leading_zero_nibbles(&d, 2), 4);
    assert_eq!(leading_zero_nibbles(&d, 5), 6);
    assert_eq!(leading_zero_nibbles(&d, 64), 64);
    assert_eq!(leading_zero_nibbles(&d, 255), 64);
}

#[test]
fn digest_meets_odd_difficulty() {
    let d = digest(&[0x00, 0x0f]);
    assert!(digest_meets_difficulty(&d, 3));
    assert!(!digest_meets_difficulty(&d, 4));
    assert!(digest_meets_difficulty(&d, 0));
    assert!(!digest_meets_difficulty(&vec![0u8; 32], 65));
}

#[test]
fn difficulty_monotone_on_digest() {
    let d = digest(&[0x00, 0x00, 0x0a]);
    for k in 0..=5u8 {
        assert!(digest_meets_difficulty(&d, k));
    }
    assert!(!digest_meets_difficulty(&d, 6));
}

#[test]
fn validity_uses_sha256_of_seed_and_solution() {
    // SHA-256 of 32 zero bytes starts with 0x66.
    let c = zero_challenge(1);
    let solver = ChallengeSolver::new(&c);
    assert!(!solver.is_valid_solution(&[0u8; 16]));
    let c0 = zero_challenge(0);
    assert!(ChallengeSolver::new(&c0).is_valid_solution(&[0u8; 16]));
}

#[test]
fn validity_is_deterministic() {
    let c = Challenge::new(2);
    let solver = ChallengeSolver::new(&c);
    let s = [7u8; 16];
    let first = solver.is_valid_solution(&s);
    for _ in 0..5 {
        assert_eq!(solver.is_valid_solution(&s), first);
    }
}

#[test]
fn solve_returns_valid_solution() {
    for d in 0..=3u8 {
        let c = Challenge::new(d);
        let solver = ChallengeSolver::new(&c);
        let res = solver.solve().unwrap();
        assert!(res.hashes_tried >= 1);
        assert!(solver.is_valid_solution(&res.solution));
    }
}

#[test]
fn challenge_new_and_default() {
    assert_eq!(Challenge::new(9).difficulty, 9);
    assert_eq!(Challenge::default().difficulty, DEFAULT_DIFFICULTY);
}

#[test]
fn challenge_round_trip() {
    let mut value = [0u8; 16];
    for (i, b) in value.iter_mut().enumerate() {
        *b = i as u8 * 3;
    }
    let c = Challenge { difficulty: 7, value };
    let bytes = encode_challenge(&c);
    assert_eq!(bytes.len(), 17);
    assert_eq!(bytes[0], 7);
    assert_eq!(&bytes[1..], &value[..]);
    assert_eq!(decode_challenge(&bytes), Some(c));
    assert!(decode_challenge(&bytes[..16].to_vec()).is_none());
}

#[test]
fn solution_round_trip() {
    let s = [0xabu8; 16];
    let bytes = encode_solution(&s);
    assert_eq!(bytes, vec![0xabu8; 16]);
    assert_eq!(decode_solution(&bytes), Some(s));
    assert_eq!(decode_solution(&vec![0u8; 15]), None);
}

#[test]
fn solution_state_round_trip() {
    assert_eq!(encode_solution_state(SolutionState::Accepted), vec![0, 0, 0, 0]);
    assert_eq!(encode_solution_state(SolutionState::Rejected), vec![1, 0, 0, 0]);
    for st in [SolutionState::Accepted, SolutionState::Rejected] {
        assert_eq!(decode_solution_state(&encode_solution_state(st)), Some(st));
    }
    assert_eq!(decode_solution_state(&vec![2, 0, 0, 0]), None);
    assert_eq!(decode_solution_state(&vec![0, 0, 0]), None);
}

#[test]
fn length_round_trip() {
    assert_eq!(encode_length(0x0102030405060708), vec![8, 7, 6, 5, 4, 3, 2, 1]);
    for n in [0u64, 1, 255, 256, u64::MAX] {
        assert_eq!(decode_length(&encode_length(n)), Some(n));
    }
    assert_eq!(decode_length(&vec![1, 2, 3]), None);
}

#[test]
fn varsize_frame_layout() {
    assert_eq!(frame_varsize(&vec![9, 8]), vec![2, 0, 0, 0, 0, 0, 0, 0, 9, 8]);
    assert_eq!(frame_varsize(&vec![]), vec![0u8; 8]);
}

#[test]
fn text_round_trip() {
    for s in ["", "hi", "héllo ✓ 日本"] {
        let frame = frame_text(&s.to_string());
        assert_eq!(frame.len(), 8 + s.len());
        assert_eq!(decode_text_frame(&frame), Some(s.to_string()));
    }
}

#[test]
fn text_frame_rejects_bad_input() {
    let mut frame = frame_text(&"abc".to_string());
    frame.pop();
    assert_eq!(decode_text_frame(&frame), None);
    assert_eq!(decode_text_frame(&vec![0u8; 7]), None);
    let bad = frame_varsize(&vec![0xff, 0xfe]);
    assert_eq!(decode_text_frame(&bad), None);
    assert_eq!(decode_text(vec![0xc3]), None);
    assert_eq!(decode_text(vec![0xc3, 0xa9]), Some("é".to_string()));
}

#[test]
fn transport_holds_stream() {
    let t = Transport::new(vec![1u8, 2]);
    assert_eq!(t.c, vec![1u8, 2]);
}

#[test]
fn server_rejects_empty_responses() {
    assert!(matches!(Server::new(vec![]), Err(ServerError::EmptyResponses)));
    assert_eq!(ServerError::EmptyResponses.message(), "responses must not be empty");
}

#[test]
fn server_accepts_responses() {
    let s = Server::new(vec!["a".to_string()]).unwrap();
    assert_eq!(s.difficulty(), DEFAULT_DIFFICULTY);
    assert_eq!(s.response_count(), 1);
    let mut s = Server::new(vec!["a".to_string(), "b".to_string()]).unwrap();
    s.set_difficulty(0);
    assert_eq!(s.difficulty(), 0);
    assert_eq!(s.response_count(), 2);
    assert_eq!(s.new_challenge().difficulty, 0);
}

fn run_exchange(server: &Server, solution: [u8; 16], challenge: &Challenge) -> (Vec<u8>, Vec<u8>) {
    let (state, action) = server
        .handle_event(ClientState::Initial, &ConnectionEvent::Opened, challenge)
        .unwrap();
    assert_eq!(state, ClientState::ChallengeSent);
    let sent = match action {
        ServerAction::Send(f) => f,
        ServerAction::SendAndClose(_) => panic!("closed too early"),
    };
    let (_, action) = server
        .handle_event(state, &ConnectionEvent::SolutionReceived(solution), challenge)
        .unwrap();
    let reply = match action {
        ServerAction::SendAndClose(f) => f,
        ServerAction::Send(_) => panic!("connection left open"),
    };
    (sent, reply)
}

fn client_reads(client: &Client, reply: &[u8]) -> Result<String, ClientError> {
    client.read_outcome(&reply[..4].to_vec())?;
    let n = client.read_response_length(&reply[4..12].to_vec())? as usize;
    assert_eq!(reply.len(), 12 + n);
    client.read_response(reply[12..].to_vec())
}

#[test]
fn difficulty_zero_accepts_any_solution() {
    let mut server = Server::new(vec!["hi".to_string()]).unwrap();
    server.set_difficulty(0);
    let client = Client::new("127.0.0.1:4444");
    for solution in [[0u8; 16], [0xffu8; 16], [0x5au8; 16]] {
        let challenge = server.new_challenge();
        let (sent, reply) = run_exchange(&server, solution, &challenge);
        assert_eq!(sent, encode_challenge(&challenge));
        assert_eq!(reply[..4], [0, 0, 0, 0]);
        assert_eq!(client_reads(&client, &reply), Ok("hi".to_string()));
    }
}

#[test]
fn two_connections_each_get_a_response() {
    let mut server = Server::new(vec!["one".to_string(), "two".to_string()]).unwrap();
    server.set_difficulty(0);
    let client = Client::new("127.0.0.1:4444");
    let first = server.new_challenge();
    let second = server.new_challenge();
    let (_, r1) = run_exchange(&server, [1u8; 16], &first);
    let (_, r2) = run_exchange(&server, [2u8; 16], &second);
    for r in [r1, r2] {
        let text = client_reads(&client, &r).unwrap();
        assert!(text == "one" || text == "two");
    }
}

#[test]
fn invalid_solution_is_rejected_without_payload() {
    let mut server = Server::new(vec!["hi".to_string()]).unwrap();
    server.set_difficulty(4);
    let challenge = zero_challenge(4);
    let (_, reply) = run_exchange(&server, [0u8; 16], &challenge);
    assert_eq!(reply, vec![1, 0, 0, 0]);
    let client = Client::new("127.0.0.1:4444");
    assert_eq!(client.read_outcome(&reply), Err(ClientError::Rejected));
    assert_eq!(client.read_outcome(&vec![3, 0, 0, 0]), Err(ClientError::MalformedOutcome));
}

#[test]
fn outcome_frame_picks_the_given_response() {
    let server = Server::new(vec!["a".to_string(), "bc".to_string()]).unwrap();
    let c = zero_challenge(0);
    let f = server.outcome_frame(&c, &[0u8; 16], 1);
    assert_eq!(f, vec![0, 0, 0, 0, 2, 0, 0, 0, 0, 0, 0, 0, b'b', b'c']);
}

#[test]
fn out_of_order_events_are_refused() {
    let server = Server::new(vec!["hi".to_string()]).unwrap();
    let c = zero_challenge(0);
    assert!(server
        .handle_event(ClientState::Initial, &ConnectionEvent::SolutionReceived([0u8; 16]), &c)
        .is_none());
    assert!(server
        .handle_event(ClientState::ChallengeSent, &ConnectionEvent::Opened, &c)
        .is_none());
}

#[test]
fn client_solves_received_challenge() {
    let client = Client::new("example:1");
    assert_eq!(client.address(), "example:1");
    let c = Challenge::new(2);
    let (got, res) = client.answer_challenge(&encode_challenge(&c)).unwrap();
    assert_eq!(got.value, c.value);
    assert_eq!(got.difficulty, 2);
    assert!(ChallengeSolver::new(&c).is_valid_solution(&res.solution));
    assert!(matches!(
        client.answer_challenge(&vec![0u8; 16]),
        Err(ClientError::MalformedChallenge)
    ));
}

#[test]
fn client_reads_length_and_text() {
    let client = Client::new("x");
    assert_eq!(client.read_response_length(&vec![5, 0, 0, 0, 0, 0, 0, 0]), Ok(5));
    assert_eq!(client.read_response_length(&vec![5]), Err(ClientError::MalformedLength));
    assert_eq!(client.read_response(vec![0xff]), Err(ClientError::MalformedResponse));
    assert_eq!(client.read_response("ok".as_bytes().to_vec()), Ok("ok".to_string()));
}

#[test]
fn solve_takes_first_candidate_at_difficulty_zero() {
    let c = zero_challenge(0);
    let res = ChallengeSolver::new(&c).solve().unwrap();
    assert_eq!(res.hashes_tried, 1);
    let c = Challenge::new(0);
    assert_eq!(ChallengeSolver::new(&c).solve().unwrap().hashes_tried, 1);
}

fn client_exchange(server: &Server, client: &Client) -> Result<String, ClientError> {
    let challenge = server.new_challenge();
    let mut state = ClientState::Initial;
    let mut event = ConnectionEvent::Opened;
    let mut phase = ClientPhase::AwaitChallenge;
    let mut read = client.first_read() as usize;
    let mut inbox: Vec<u8> = Vec::new();
    loop {
        match server.handle_event(state, &event, &challenge).unwrap() {
            (next, ServerAction::Send(f)) => {
                inbox.extend(f);
                state = next;
            }
            (_, ServerAction::SendAndClose(f)) => {
                inbox.extend(f);
                break;
            }
        }
        let msg: Vec<u8> = inbox.drain(..read).collect();
        match client.handle_message(phase, msg)? {
            ClientAction::Reply { frame, next, read: size, .. } => {
                event = ConnectionEvent::SolutionReceived(decode_solution(&frame).unwrap());
                phase = next;
                read = size as usize;
            }
            _ => panic!("expected a solution"),
        }
    }
    loop {
        let msg: Vec<u8> = inbox.drain(..read).collect();
        match client.handle_message(phase, msg)? {
            ClientAction::Read { next, read: size } => {
                phase = next;
                read = size as usize;
            }
            ClientAction::Finish(text) => {
                assert!(inbox.is_empty());
                return Ok(text);
            }
            ClientAction::Reply { .. } => panic!("unexpected challenge"),
        }
    }
}

#[test]
fn client_steps_receive_hi_at_difficulty_zero() {
    let mut server = Server::new(vec!["hi".to_string()]).unwrap();
    server.set_difficulty(0);
    let client = Client::new("127.0.0.1:4444");
    assert_eq!(client.first_read(), 17);
    assert_eq!(client_exchange(&server, &client), Ok("hi".to_string()));
}

#[test]
fn client_steps_two_clients_at_difficulty_zero() {
    let mut server = Server::new(vec!["a".to_string(), "b".to_string()]).unwrap();
    server.set_difficulty(0);
    let c1 = Client::new("h:1");
    let c2 = Client::new("h:1");
    for c in [&c1, &c2] {
        let text = client_exchange(&server, c).unwrap();
        assert!(text == "a" || text == "b");
    }
}

#[test]
fn client_steps_solve_at_difficulty_two() {
    let mut server = Server::new(vec!["quote".to_string()]).unwrap();
    server.set_difficulty(2);
    let client = Client::new("h:1");
    assert_eq!(client_exchange(&server, &client), Ok("quote".to_string()));
}

#[test]
fn client_step_errors() {
    let client = Client::new("h:1");
    assert!(matches!(
        client.handle_message(ClientPhase::AwaitChallenge, vec![0u8; 3]),
        Err(ClientError::MalformedChallenge)
    ));
    assert!(matches!(
        client.handle_message(ClientPhase::AwaitOutcome, vec![1, 0, 0, 0]),
        Err(ClientError::Rejected)
    ));
    assert!(matches!(
        client.handle_message(ClientPhase::AwaitOutcome, vec![0, 0, 0, 0]),
        Ok(ClientAction::Read { next: ClientPhase::AwaitLength, read: 8 })
    ));
    assert!(matches!(
        client.handle_message(ClientPhase::AwaitLength, vec![3, 0, 0, 0, 0, 0, 0, 0]),
        Ok(ClientAction::Read { next: ClientPhase::AwaitResponse, read: 3 })
    ));
    assert!(matches!(
        client.handle_message(ClientPhase::AwaitLength, vec![3]),
        Err(ClientError::MalformedLength)
    ));
    assert!(matches!(
        client.handle_message(ClientPhase::AwaitResponse, vec![0xff]),
        Err(ClientError::MalformedResponse)
    ));
    match client.handle_message(ClientPhase::AwaitChallenge, vec![0u8; 17]) {
        Ok(ClientAction::Reply { frame, difficulty, hashes_tried, next, read }) => {
            assert_eq!(frame.len(), 16);
            assert_eq!(difficulty, 0);
            assert_eq!(hashes_tried, 1);
            assert_eq!(next, ClientPhase::AwaitOutcome);
            assert_eq!(read, 4);
        }
        _ => panic!("difficulty zero must be answered"),
    }
}
