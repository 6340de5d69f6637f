pub mod app_state;
