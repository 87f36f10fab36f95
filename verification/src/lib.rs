//! Client-side logic of a Matrix SDK: back-pagination status handling of the
//! event cache, selection of cache states, the room key backup task queues,
//! the room list name filter and the text codec used by the JavaScript
//! extensions host.

pub mod error;
pub mod pagination;
pub mod task_queue;
pub mod key_backup;
pub mod selectors;
pub mod text_codec;
pub mod room_list_filter;
