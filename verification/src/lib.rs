//! Verified core of the HYWDbg debugger: the wire protocol, the core's
//! request routing, the simulated backends and the text formatting that the
//! front ends show.
pub mod text;
pub mod num;
pub mod json;
pub mod protocol;
pub mod backend;
pub mod mock_data;
pub mod mock;
pub mod mock_laws;
pub mod router;
pub mod pending;
pub mod http;
pub mod winapi;
pub mod winapi_plan;
pub mod winapi_session;
pub mod console;
