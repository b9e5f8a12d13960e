//! Article resolution for a terminal Wikipedia reader: page classification,
//! disambiguation expansion, search-result handling and the choice logic that
//! turns a user's intent into one readable article title.

pub mod text;
pub mod html;
pub mod classify;
pub mod candidates;
pub mod expand;
pub mod search;
pub mod resolve;

pub use candidates::{CandidateArticle, CandidateSet};
pub use classify::{classify_page, classify_parts, PageClassification};
pub use expand::{expand_disambiguation, expand_items, ParseError};
pub use resolve::{
    choose_option, menu, menu_entries, pick_candidate, resolve_search, settle_random,
    MenuChoice, Resolution, SessionConfig,
};
pub use search::{parse_search_page, search_url, SearchError, SearchSession};
