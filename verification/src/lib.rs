pub mod text;
pub mod decimal;
pub mod identifiers;
pub mod versions;
pub mod history_visibility;
pub mod json;
pub mod errors;
pub mod create_room;
pub mod creation_plan;
pub mod room;
pub mod rate_limit;
pub mod room_access;
pub mod room_events;
pub mod room_queries;
pub mod timeline_pages;
pub mod room_writes;
pub mod state_rows;
pub mod state_contents;
pub mod sync;
pub mod views;
