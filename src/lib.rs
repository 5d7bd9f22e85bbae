pub mod color;
pub mod db;
pub mod store;
pub mod table;
pub mod util;
