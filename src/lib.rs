//! A proof-of-work gated request/response protocol: the wire codec, the
//! hashcash-style puzzle, and the per-connection decisions of server and client.

pub mod client;
pub mod pow;
pub mod proto;
pub mod server;

pub use proto::{
    Challenge, ChallengeSolution, SolutionState, Transport, CHALLENGE_FRAME_SIZE, CHALLENGE_SIZE,
    DEFAULT_DIFFICULTY, LENGTH_PREFIX_SIZE, SOLUTION_SIZE, SOLUTION_STATE_SIZE,
};
pub use pow::{ChallengeSolver, SolvingResult};
pub use server::{ClientState, ConnectionEvent, Server, ServerAction, ServerError};
pub use client::{Client, ClientAction, ClientError, ClientPhase};
