//! The requesting side: what a client makes of each message the server sends.

use vstd::prelude::*;

use crate::pow::{solution_is_valid, ChallengeSolver, SolvingResult};
use crate::proto::{
    challenge_bytes, decode_challenge, decode_length, decode_solution_state, decode_text,
    encode_solution, le_value, parse_solution_state, Challenge, SolutionState,
    CHALLENGE_FRAME_SIZE, LENGTH_PREFIX_SIZE, SOLUTION_STATE_SIZE,
};
use vstd::utf8::{decode_utf8, valid_utf8};

verus! {

/// Why a client got no response.
#[derive(PartialEq, Eq, Structural, Clone, Copy, Debug)]
pub enum ClientError {
    MalformedChallenge,
    SearchExhausted,
    MalformedOutcome,
    Rejected,
    MalformedLength,
    MalformedResponse,
}

impl ClientError {
    pub fn message(&self) -> (r: &'static str) {
        match self {
            ClientError::MalformedChallenge => "malformed challenge",
            ClientError::SearchExhausted => "no solution found",
            ClientError::MalformedOutcome => "malformed outcome",
            ClientError::Rejected => "is not valid proof",
            ClientError::MalformedLength => "malformed length prefix",
            ClientError::MalformedResponse => "response is not UTF-8",
        }
    }
}

/// What a client waits for next: the challenge, the outcome, the length of
/// the response, or the response itself.
#[derive(PartialEq, Eq, Structural, Clone, Copy, Debug)]
pub enum ClientPhase {
    AwaitChallenge,
    AwaitOutcome,
    AwaitLength,
    AwaitResponse,
}

/// What a client does after a message: send a solution and read the next
/// message, read the next message, or finish with the response.
pub enum ClientAction {
    Reply { frame: Vec<u8>, difficulty: u8, hashes_tried: u128, next: ClientPhase, read: u64 },
    Read { next: ClientPhase, read: u64 },
    Finish(String),
}

/// A client of the server at `address`.
pub struct Client<'a> {
    address: &'a str,
}

impl<'a> Client<'a> {
    pub fn new(address: &'a str) -> (r: Self)
        ensures
            r.spec_address() == address,
    {
        Client { address }
    }

    pub closed spec fn spec_address(&self) -> &'a str {
        self.address
    }

    pub fn address(&self) -> (r: &'a str)
        ensures
            r == self.spec_address(),
    {
        self.address
    }

    /// Reads the challenge and searches for a solution to it.
    pub fn answer_challenge(&self, frame: &Vec<u8>) -> (r: Result<(Challenge, SolvingResult), ClientError>)
        ensures
            r matches Err(ClientError::MalformedChallenge) <==> frame@.len() != 17,
            r matches Err(e) ==> e == ClientError::MalformedChallenge || e
                == ClientError::SearchExhausted,
            (frame@.len() == 17 && frame@[0] == 0) ==> r is Ok,
            r matches Ok((c, res)) ==> challenge_bytes(c) == frame@ && res.hashes_tried >= 1
                && solution_is_valid(c.value@, c.difficulty as int, res.solution@),
    {
        let challenge = match decode_challenge(frame) {
            Some(c) => c,
            None => return Err(ClientError::MalformedChallenge),
        };
        let solver = ChallengeSolver::new(&challenge);
        match solver.solve() {
            Some(res) => Ok((challenge, res)),
            None => Err(ClientError::SearchExhausted),
        }
    }

    /// Reads the outcome: success only on an acceptance.
    pub fn read_outcome(&self, frame: &Vec<u8>) -> (r: Result<(), ClientError>)
        ensures
            r is Ok <==> parse_solution_state(frame@) == Some(SolutionState::Accepted),
            r matches Err(ClientError::Rejected) <==> parse_solution_state(frame@) == Some(
                SolutionState::Rejected,
            ),
            r matches Err(ClientError::MalformedOutcome) <==> parse_solution_state(frame@) is None,
    {
        match decode_solution_state(frame) {
            Some(SolutionState::Accepted) => Ok(()),
            Some(SolutionState::Rejected) => Err(ClientError::Rejected),
            None => Err(ClientError::MalformedOutcome),
        }
    }

    /// Reads the length that precedes the response.
    pub fn read_response_length(&self, frame: &Vec<u8>) -> (r: Result<u64, ClientError>)
        ensures
            r is Ok <==> frame@.len() == 8,
            r matches Ok(n) ==> n == le_value(frame@),
            r matches Err(e) ==> e == ClientError::MalformedLength,
    {
        match decode_length(frame) {
            Some(n) => Ok(n),
            None => Err(ClientError::MalformedLength),
        }
    }

    /// Reads the response text.
    pub fn read_response(&self, payload: Vec<u8>) -> (r: Result<String, ClientError>)
        ensures
            r is Ok <==> valid_utf8(payload@),
            r matches Ok(s) ==> s@ == decode_utf8(payload@),
            r matches Err(e) ==> e == ClientError::MalformedResponse,
    {
        match decode_text(payload) {
            Some(s) => Ok(s),
            None => Err(ClientError::MalformedResponse),
        }
    }

    /// How many bytes the first message, the challenge, takes.
    pub fn first_read(&self) -> (r: u64)
        ensures
            r == 17,
    {
        CHALLENGE_FRAME_SIZE as u64
    }

    /// The client's step on receiving `msg` while waiting in `phase`: answer a
    /// challenge with a solution and wait for the outcome; on acceptance wait
    /// for the length, then for that many bytes of response; finish with the
    /// response text. A rejection or a malformed message ends the exchange
    /// with an error.
    pub fn handle_message(&self, phase: ClientPhase, msg: Vec<u8>) -> (r: Result<ClientAction, ClientError>)
        ensures
            phase == ClientPhase::AwaitChallenge ==> {
                &&& (r matches Err(ClientError::MalformedChallenge)) <==> msg@.len() != 17
                &&& (r matches Err(e) ==> e == ClientError::MalformedChallenge || e
                    == ClientError::SearchExhausted)
                &&& (msg@.len() == 17 && msg@[0] == 0) ==> r is Ok
                &&& r is Ok ==> (r matches Ok(
                    ClientAction::Reply { frame, difficulty, hashes_tried, next, read },
                ) && next == ClientPhase::AwaitOutcome && read == 4 && difficulty == msg@[0]
                    && hashes_tried >= 1 && frame@.len() == 16 && solution_is_valid(
                    msg@.subrange(1, 17),
                    msg@[0] as int,
                    frame@,
                ))
            },
            phase == ClientPhase::AwaitOutcome ==> {
                &&& r is Ok <==> parse_solution_state(msg@) == Some(SolutionState::Accepted)
                &&& r is Ok ==> (r matches Ok(ClientAction::Read { next, read }) && next
                    == ClientPhase::AwaitLength && read == 8)
                &&& (r matches Err(ClientError::Rejected)) <==> parse_solution_state(msg@) == Some(
                    SolutionState::Rejected,
                )
                &&& (r matches Err(ClientError::MalformedOutcome)) <==> parse_solution_state(msg@) is None
            },
            phase == ClientPhase::AwaitLength ==> {
                &&& r is Ok <==> msg@.len() == 8
                &&& r is Ok ==> (r matches Ok(ClientAction::Read { next, read }) && next
                    == ClientPhase::AwaitResponse && read == le_value(msg@))
                &&& (r matches Err(e) ==> e == ClientError::MalformedLength)
            },
            phase == ClientPhase::AwaitResponse ==> {
                &&& r is Ok <==> valid_utf8(msg@)
                &&& r is Ok ==> (r matches Ok(ClientAction::Finish(s)) && s@ == decode_utf8(msg@))
                &&& (r matches Err(e) ==> e == ClientError::MalformedResponse)
            },
    {
        match phase {
            ClientPhase::AwaitChallenge => {
                let (c, res) = self.answer_challenge(&msg)?;
                proof {
                    assert(c.value@ =~= challenge_bytes(c).subrange(1, 17));
                }
                let frame = encode_solution(&res.solution);
                Ok(
                    ClientAction::Reply {
                        frame,
                        difficulty: c.difficulty,
                        hashes_tried: res.hashes_tried,
                        next: ClientPhase::AwaitOutcome,
                        read: SOLUTION_STATE_SIZE as u64,
                    },
                )
            },
            ClientPhase::AwaitOutcome => {
                self.read_outcome(&msg)?;
                Ok(ClientAction::Read { next: ClientPhase::AwaitLength, read: LENGTH_PREFIX_SIZE as u64 })
            },
            ClientPhase::AwaitLength => {
                let n = self.read_response_length(&msg)?;
                Ok(ClientAction::Read { next: ClientPhase::AwaitResponse, read: n })
            },
            ClientPhase::AwaitResponse => {
                let s = self.read_response(msg)?;
                Ok(ClientAction::Finish(s))
            },
        }
    }
}

} // verus!
