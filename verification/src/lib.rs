pub mod allocator;
pub mod deployment;
pub mod guard;
pub mod index;
pub mod key;
pub mod listing;
pub mod principal;
pub mod registry;
pub mod review;
pub mod table;
pub mod text;
