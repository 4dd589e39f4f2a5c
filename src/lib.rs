//! Note-taking command surface: the pure logic of the search-select-edit
//! pipeline (item streams, match records, editor dispatch, previews).

pub mod editor;
pub mod error;
pub mod items;
pub mod note;
pub mod preview;
pub mod record;
pub mod search;
pub mod text;
