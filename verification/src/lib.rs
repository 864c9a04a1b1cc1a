use vstd::prelude::*;

pub mod emit;
pub mod errors;
pub mod resolver;
pub mod scan;
pub mod splice;
pub mod store;

verus! {

/// Command-line options of the tool: the root document file, whether to
/// minify the result, where to write it, and whether only the version
/// banner was asked for.
#[derive(Debug)]
pub struct Args {
    pub arg_file: String,
    pub flag_minify: bool,
    pub flag_output: String,
    pub flag_version: bool,
}

} // verus!
