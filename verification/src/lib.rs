//! Latest watch per viewer for one media item: raw watch events are reduced to
//! the most recent event of every viewer and projected into a record whose
//! shape depends on the media kind.

pub mod shared;
pub mod tautulli;
