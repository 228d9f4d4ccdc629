//! Finding icon identifiers of the form `collection:name`: a boolean query
//! language over them, and the state of an interactive grid that browses
//! the results.

use vstd::prelude::*;

pub mod catalog;
pub mod grid;
pub mod messages;
pub mod query;
pub mod search;
pub mod session;
pub mod text;

pub use catalog::{
    custom_output, generate_cached_icons, get_icon_xml, should_browse, svg_document, Author, Collection,
    Config, Icon, IconCollection, IconError, Info, License, SearchRequest, SearchResponse,
};
pub use grid::{do_move, Direction};
pub use query::{match_query, parse, parse_tokens, ParseError, Symbol};
pub use search::{parse_original_search_string, parse_search_string, query, Cli};
pub use session::{Action, Key, Mode, Requery, Session};

verus! {

} // verus!
