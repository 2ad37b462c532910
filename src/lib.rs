//! Election management: participants register and wait for the administrator's
//! approval, approved participants ask for a role (candidate or voter) in an election,
//! the administrator decides on each request in arrival order while the election has not
//! opened, and voters vote while it is open.
//!
//! - `sistema`: the engine, its invariant and its operations.
//! - `votacion`: one election, its candidates, voters and tallies.
//! - `calendario`: civil dates and the instants at which elections open and close.
//! - `cuenta`: the identity of the party that invokes an operation.
//! - `fecha`, `usuario`: a stand-alone calendar with day arithmetic, and role records.
pub mod calendario;
pub mod cuenta;
pub mod fecha;
pub mod sistema;
pub mod usuario;
pub mod votacion;
