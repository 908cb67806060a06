//! Verified core of a SIP back-to-back user agent: call phases, routing,
//! registration lookup, media negotiation and the dialling state machines.
pub mod answer_runtime;
pub mod app_runtime;
pub mod bridge_runtime;
pub mod call;
pub mod call_leg;
pub mod caller_negotiation;
pub mod dialplan_runtime;
pub mod dtmf_listener;
pub mod host;
pub mod leg_command;
pub mod leg_event;
pub mod locator;
pub mod matcher;
pub mod media_bridge;
pub mod media_endpoint;
pub mod media_peer;
pub mod model;
pub mod negotiate;
pub mod originated_runtime;
pub mod proxy_call;
pub mod proxy_runtime;
pub mod queue_flow;
pub mod recording_runtime;
pub mod sdp_direction;
pub mod server;
pub mod session;
pub mod session_loop_runtime;
pub mod session_timer;
pub mod sip;
pub mod sip_leg;
pub mod state;
pub mod target_runtime;
pub mod text;
