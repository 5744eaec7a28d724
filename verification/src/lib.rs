//! A verified core for a realtime chat relay hub.
//!
//! The hub tracks live connections in a registry, fans every published
//! message out to all current subscribers, drives each connection through
//! an explicit session state machine, and evicts dead peers when a
//! heartbeat or write fails. All decision logic lives here with proved
//! contracts; transport and storage I/O live outside the library.

use vstd::prelude::*;

mod auth;
mod fanout;
mod hub;
mod msg;
mod registry;
mod session;

pub use auth::Device;
pub use auth::LoginData;
pub use auth::LoginOutcome;
pub use auth::RegisterError;
pub use auth::RegisterOutcome;
pub use auth::RegistrationData;
pub use auth::SESSION_LIFETIME_SECS;
pub use auth::Session;
pub use auth::User;
pub use auth::bcrypt_matches;
pub use auth::check_login;
pub use auth::device_for_login;
pub use auth::finish_registration;
pub use auth::login_status;
pub use auth::register_status;
pub use auth::register_user;
pub use auth::registration_filled;
pub use auth::session_for_login;
pub use auth::validate_registration;

pub use fanout::Fanout;
pub use fanout::FanoutError;
pub use fanout::Subscriber;
pub use fanout::delivered;
pub use fanout::has_sub;
pub use fanout::lemma_fanout_in_order;
pub use fanout::lemma_no_early_delivery;
pub use fanout::msgs_view;
pub use fanout::offer_all;
pub use fanout::offered_queue;
pub use fanout::sub_idx;
pub use fanout::sub_ok;

pub use hub::Hub;
pub use hub::HubError;
pub use hub::InboundOutcome;
pub use hub::SessionRec;
pub use hub::has_session;
pub use hub::lemma_heartbeat_eviction;
pub use hub::live;
pub use hub::replay_frames;
pub use hub::session_idx;

pub use msg::ChatMessage;
pub use msg::FRAME_SEPARATOR;
pub use msg::MsgView;
pub use msg::broadcast_frame;
pub use msg::broadcast_frame_of;
pub use msg::encode_inbound;
pub use msg::inbound_frame;
pub use msg::lemma_frame_round_trip;
pub use msg::lemma_inbound_frame_injective;
pub use msg::parse_inbound;
pub use msg::valid_sender;

pub use registry::PresenceRecord;
pub use registry::RecView;
pub use registry::Registry;
pub use registry::RegistryError;
pub use registry::lemma_remove_count;
pub use registry::lemma_remove_idempotent;

pub use session::SessionDirective;
pub use session::SessionEvent;
pub use session::SessionState;
pub use session::is_fatal;
pub use session::lemma_closed_terminal;
pub use session::lemma_first_failure_drives_drain;
pub use session::lemma_malformed_is_skipped;
pub use session::lemma_step_monotone;
pub use session::lemma_teardown_once;
pub use session::rank;
pub use session::session_step;
pub use session::spec_step;

verus! {

/// The number of milliseconds between two liveness probes on one connection.
pub const HEARTBEAT_INTERVAL_MS: u64 = 30000;

} // verus!
