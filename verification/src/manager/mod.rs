pub mod stream_manager;
