//! Analysis core of an MCP server for Quake 3 VM (QVM) modules: the
//! per-function index built when a module is opened, name resolution,
//! cross references, address classification, listing annotation and the
//! decisions of the tool and protocol surface.

pub mod index;
pub mod laws;
pub mod model;
pub mod protocol;
pub mod session;
pub mod text;
pub mod tools;
