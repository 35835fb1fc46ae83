pub mod websocket;
pub mod hls;
pub mod streams;
pub mod health;
pub mod cdn;
