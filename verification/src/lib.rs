//! Verified core of a Plex media synchronisation tool and its DLNA media server.
use vstd::prelude::*;

pub mod add_url;
pub mod buffer;
pub mod cli;
pub mod dlna;
pub mod dlna_objects;
pub mod http;
pub mod names;
pub mod next_video;
pub mod paths;
pub mod plex_out;
pub mod profile;
pub mod profile_choice;
pub mod schema;
pub mod schema_laws;
pub mod state;
pub mod store;
pub mod sync;
pub mod sync_cycle;
pub mod sync_list;
pub mod ssdp;
pub mod ssdp_laws;
pub mod ssdp_task;
pub mod state_load;
pub mod text;
pub mod title_sort;
pub mod upnp;
pub mod upnp_xml;
pub mod web;
pub mod xml;
pub mod xml_read;
pub mod xml_write;

verus! {

} // verus!
