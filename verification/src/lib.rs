#![allow(non_snake_case)]
pub mod engine;
pub mod event;
pub mod gamejson;
mod msg;
pub mod registry;
mod rng;
mod text;
pub mod user;
pub mod wire;

pub use msg::MqttMsg;
pub use text::dec_str;
pub use text::u64_dec;
