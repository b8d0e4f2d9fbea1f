//! A deterministic core for an arena in which scripted robots move, turn,
//! shoot and sense.
//!
//! The arena advances in ticks. At the start of a tick one [`collision`]
//! frame is taken of the shapes of all ships, rocks and bullets; against it
//! every [`ship`] carries on with the action that its control program asked
//! for, every [`rock`] takes its damage, and the [`bullet`] pool moves the
//! bullets in flight and takes back those whose flight has ended. The
//! [`arena`] ties these together.
//!
//! A control program reaches its ship through the bindings of
//! [`ship::api`]. An action is asked for over a channel that carries one
//! request at a time: the control program stays suspended until the ship has
//! completed the action.
//!
//! All quantities are integers, in the units that [`math`] lays down, so
//! that a round runs the same way wherever it is run.

pub mod arena;
pub mod bullet;
pub mod collision;
pub mod math;
pub mod object;
pub mod rock;
pub mod ship;
pub mod text;
