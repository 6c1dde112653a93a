//! What the operations are for: laws that lead from what is put in to what comes out.

pub mod calls;
pub mod contents;
pub mod curation;
pub mod facts;
pub mod indexing;
pub mod jobs;
pub mod places;
pub mod recall;
pub mod serving;
pub mod settings;
pub mod turn;
pub mod words;
