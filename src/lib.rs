pub mod text;
pub mod table;
pub mod number;
pub mod identify;
pub mod version;
pub mod store;
pub mod dependency;
pub mod module;
pub mod manifest;
pub mod ibht;
pub mod dispatch;
pub mod cbuild;
pub mod rustbuild;
pub mod builders;
pub mod generators;
pub mod actions;
pub mod paths;
pub mod schedule;
