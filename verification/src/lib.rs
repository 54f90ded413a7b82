//! The logic of the Fractal Matrix client's window: the views it switches
//! between and the history the back action walks, the menu of actions on a
//! message, the controls of the media viewer, and what the session cache
//! stores and reads back.
pub mod app_state;
pub mod back_history;
pub mod cache;
pub mod media_viewer;
pub mod message_menu;
pub mod text;
