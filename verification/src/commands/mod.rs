pub mod app;
pub mod create;
pub mod disable;
pub mod launch;
pub mod list;
pub mod stop;
