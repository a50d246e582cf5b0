use vstd::prelude::*;

pub mod api;
pub mod docmap;
pub mod extract;
pub mod impls;
pub mod laws;
pub mod model;
pub mod scan;
pub mod sigs;
pub mod token;

pub use api::extract_filename;
pub use api::generate_doc;
pub use api::get_map;
pub use api::AllOutput;
pub use docmap::DocMap;
pub use extract::Units;
pub use extract::MODULE_DEPTH_LIMIT;
pub use model::DocError;
pub use model::Function;
pub use model::Implementation;
pub use model::Info;
pub use model::Output;
pub use model::Type;
pub use token::Tok;

verus! {

} // verus!
