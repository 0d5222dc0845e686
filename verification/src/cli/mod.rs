pub mod fetch;
pub mod infos;
