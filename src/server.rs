//! The server's state: its responses and difficulty, and the decision it takes
//! at each step of a connection.

use vstd::prelude::*;

use crate::pow::{random_index, solution_is_valid, ChallengeSolver};
use crate::proto::{
    challenge_bytes, encode_challenge, encode_solution_state, frame_text, solution_state_bytes,
    text_frame_bytes, Challenge, ChallengeSolution, SolutionState, DEFAULT_DIFFICULTY,
};

verus! {

/// Why a server could not be built.
#[derive(PartialEq, Eq, Structural, Clone, Copy, Debug)]
pub enum ServerError {
    EmptyResponses,
}

impl ServerError {
    pub fn message(&self) -> (r: &'static str) {
        match self {
            ServerError::EmptyResponses => "responses must not be empty",
        }
    }
}

/// Where a connection stands: nothing sent yet, or the challenge sent.
#[derive(PartialEq, Eq, Structural, Clone, Copy, Debug)]
pub enum ClientState {
    Initial,
    ChallengeSent,
}

/// What happened on a connection: it was opened, or a solution arrived.
pub enum ConnectionEvent {
    Opened,
    SolutionReceived(ChallengeSolution),
}

/// What the server does next: write bytes and go on, or write bytes and close.
pub enum ServerAction {
    Send(Vec<u8>),
    SendAndClose(Vec<u8>),
}

/// The responses to hand out and the difficulty to ask for.
pub struct Server {
    responses: Vec<String>,
    difficulty: u8,
}

/// The bytes the server answers a solution with: the acceptance and the chosen
/// response with its length, or the rejection alone.
pub open spec fn outcome_bytes(
    responses: Seq<String>,
    c: Challenge,
    solution: Seq<u8>,
    pick: int,
) -> Seq<u8> {
    if solution_is_valid(c.value@, c.difficulty as int, solution) {
        solution_state_bytes(SolutionState::Accepted) + text_frame_bytes(responses[pick]@)
    } else {
        solution_state_bytes(SolutionState::Rejected)
    }
}

impl Server {
    pub closed spec fn responses(&self) -> Seq<String> {
        self.responses@
    }

    pub closed spec fn spec_difficulty(&self) -> u8 {
        self.difficulty
    }

    /// A server always has a response to give.
    pub open spec fn well_formed(&self) -> bool {
        self.responses().len() > 0
    }

    /// A server with the given responses at the default difficulty; refused
    /// when there is no response.
    pub fn new(responses: Vec<String>) -> (r: Result<Server, ServerError>)
        ensures
            r is Err <==> responses@.len() == 0,
            r matches Err(e) ==> e == ServerError::EmptyResponses,
            r matches Ok(s) ==> s.well_formed() && s.responses() == responses@
                && s.spec_difficulty() == DEFAULT_DIFFICULTY,
    {
        if responses.len() == 0 {
            return Err(ServerError::EmptyResponses);
        }
        Ok(Server { responses, difficulty: DEFAULT_DIFFICULTY })
    }

    pub fn set_difficulty(&mut self, difficulty: u8)
        ensures
            final(self).spec_difficulty() == difficulty,
            final(self).responses() == old(self).responses(),
    {
        self.difficulty = difficulty;
    }

    pub fn difficulty(&self) -> (r: u8)
        ensures
            r == self.spec_difficulty(),
    {
        self.difficulty
    }

    pub fn response_count(&self) -> (r: usize)
        ensures
            r == self.responses().len(),
    {
        self.responses.len()
    }

    /// A fresh challenge at this server's difficulty.
    pub fn new_challenge(&self) -> (r: Challenge)
        ensures
            r.difficulty == self.spec_difficulty(),
    {
        Challenge::new(self.difficulty)
    }

    /// The answer to `solution` for `challenge`, handing out response `pick`
    /// when the solution is valid.
    pub fn outcome_frame(&self, challenge: &Challenge, solution: &ChallengeSolution, pick: usize) -> (r:
        Vec<u8>)
        requires
            pick < self.responses().len(),
        ensures
            r@ == outcome_bytes(self.responses(), *challenge, solution@, pick as int),
    {
        let solver = ChallengeSolver::new(challenge);
        if solver.is_valid_solution(solution) {
            let mut r = encode_solution_state(SolutionState::Accepted);
            let mut text = frame_text(&self.responses[pick]);
            r.append(&mut text);
            r
        } else {
            encode_solution_state(SolutionState::Rejected)
        }
    }

    /// The next step of a connection that serves `challenge`: from `Initial`,
    /// on opening, send the challenge; once it is sent, on a solution, send the
    /// outcome, with a response drawn at random when it is accepted, and close.
    /// Any other pairing of state and event is a protocol error.
    pub fn handle_event(&self, state: ClientState, event: &ConnectionEvent, challenge: &Challenge) -> (r:
        Option<(ClientState, ServerAction)>)
        requires
            self.well_formed(),
        ensures
            (state == ClientState::Initial && event is Opened) ==> (r matches Some(
                (next, ServerAction::Send(f)),
            ) && next == ClientState::ChallengeSent && f@ == challenge_bytes(*challenge)),
            (state == ClientState::ChallengeSent && event is SolutionReceived) ==> (r matches Some(
                (next, ServerAction::SendAndClose(f)),
            ) && next == ClientState::ChallengeSent && exists|pick: int|
                0 <= pick < self.responses().len() && f@ == outcome_bytes(
                    self.responses(),
                    *challenge,
                    event->SolutionReceived_0@,
                    pick,
                )),
            (state == ClientState::Initial) != (event is Opened) ==> r is None,
    {
        match (state, event) {
            (ClientState::Initial, ConnectionEvent::Opened) => {
                Some((ClientState::ChallengeSent, ServerAction::Send(encode_challenge(challenge))))
            },
            (ClientState::ChallengeSent, ConnectionEvent::SolutionReceived(solution)) => {
                let pick = random_index(self.responses.len());
                let f = self.outcome_frame(challenge, solution, pick);
                Some((ClientState::ChallengeSent, ServerAction::SendAndClose(f)))
            },
            _ => None,
        }
    }
}

} // verus!
