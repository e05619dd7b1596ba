//! UI state of a Spotify client: screens and their stored names, values
//! fetched in the background, and lists that load page by page.

use vstd::prelude::*;

pub mod common;
pub mod vec_ops;
pub mod paged_list;
pub mod sparse_view;
pub mod sparse_list;
pub mod sparse_laws;
pub mod text;
pub mod page;
pub mod loadable;
pub mod filters;
pub mod selection;
pub mod ui;

verus! {

} // verus!
