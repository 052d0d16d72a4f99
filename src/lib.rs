//! Temperature control of a heated or cooled vessel: a PID control law, a
//! reference profile played over time, a tick source, a run log, the store of
//! named profiles and the controller that ties them into one run.
pub mod pid;
pub mod reference;
pub mod tick;
pub mod log;
pub mod controller;
pub mod store;
pub mod led;
pub mod ds18b20;
pub mod interface;
