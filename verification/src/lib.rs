pub mod app;
pub mod html;
pub mod laws;
pub mod net;
pub mod news;
pub mod statistics;
pub mod status;
pub mod table;
pub mod text;
pub mod view;
