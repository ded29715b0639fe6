pub mod chat;
pub mod chat_laws;
pub mod commands;
pub mod line_laws;
pub mod lines;
pub mod memory;
pub mod navigation;
pub mod one_off;
pub mod routing;
pub mod status;
pub mod stream;
pub mod turns;
