//! Live update fan-out engine for a chat application.
//!
//! The engine consumes a change-data-capture feed from the storage layer,
//! groups interested viewers by topic (a chat channel), and pushes freshly
//! rendered change events to exactly the viewers subscribed to that topic.

pub mod clock;
pub mod decode;
pub mod directory;
pub mod ids;
pub mod laws;
pub mod pages;
pub mod render;
pub mod text;
pub mod worker;

pub use decode::decode_notification;
pub use decode::ChangeEvent;
pub use decode::DecodeError;
pub use decode::EventKind;
pub use directory::SubscribeError;
pub use directory::TopicDirectory;
pub use ids::creation_time_ms;
pub use ids::id_string;
pub use ids::parse_id;
pub use pages::render_add_member_form;
pub use pages::render_settings_nav;
pub use pages::NewChannel;
pub use pages::NewServer;
pub use pages::SentMessage;
pub use pages::SettingsTab;
pub use render::render_deleted;
pub use render::render_message;
pub use render::Message;
pub use render::RenderError;
pub use worker::Delivery;
pub use worker::TopicWorker;
