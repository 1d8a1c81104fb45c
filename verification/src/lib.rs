use vstd::prelude::*;

pub mod text;
pub mod classfile;
pub mod class_laws;
pub mod names;
pub mod mixin;
pub mod model;
pub mod grouping;
pub mod conflicts;
pub mod conflict_laws;
pub mod recommendations;
pub mod sort_key;
pub mod config;
pub mod content_page;
pub mod recommendation_state;
pub mod instance_tabs;
pub mod time_format;
pub mod workload;
pub mod home;
pub mod modpack_import;
pub mod discord;
pub mod instances_page;

verus! {

} // verus!
