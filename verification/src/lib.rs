use vstd::prelude::*;

pub mod anchor;
pub mod apply;
pub mod bluesky;
pub mod config;
pub mod doc;
pub mod doctor;
pub mod error;
pub mod frankie;
pub mod gitops;
pub mod json;
pub mod load;
pub mod lock;
pub mod num;
pub mod pipeline;
pub mod project;
pub mod publish;
pub mod pull;
pub mod registry;
pub mod repos;
pub mod route;
pub mod selectors;
pub mod smap;
pub mod source;
pub mod tagfile;
pub mod text;
pub mod wizard;

verus! {

} // verus!
