pub mod text;
pub mod number;
pub mod config;
pub mod reference;
pub mod spools;
pub mod images;
pub mod models;
