//! Connection, relay and signalling logic of the BitBridge transfer stack.

pub mod candidate;
pub mod chunk_frame;
pub mod client_config;
pub mod clock;
pub mod decimal;
pub mod filename;
pub mod gather;
pub mod gateway_auth;
pub mod geoip;
pub mod ice;
pub mod interfaces;
pub mod ipparse;
pub mod netaddr;
pub mod pool;
pub mod proxy_loop;
pub mod region;
pub mod relay_auth;
pub mod relay_config;
pub mod relay_rtc;
pub mod rtc_logic;
pub mod rtc_routing;
pub mod sdp;
pub mod sdp_answer;
pub mod server_logic;
pub mod signalling;
pub mod stun_reply;
pub mod text;
pub mod turn_assign;
pub mod turn_phase;
pub mod turn_select;
