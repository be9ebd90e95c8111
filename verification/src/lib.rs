pub mod client_provider;
pub mod codec;
pub mod consumer_offsets;
pub mod error;
pub mod message;
pub mod segment;
pub mod stream;
pub mod system;
pub mod topic;

use vstd::prelude::*;
use vstd::string::StringExecFns;

verus! {

/// Base directory of the broker's on-disk layout.
pub fn get_base_path() -> (p: String)
    ensures
        p@ == "local_data"@,
{
    String::from_str("local_data")
}

/// Directory holding one subdirectory per topic, inside the base directory.
pub fn get_topics_path() -> (p: String)
    ensures
        p@ == "local_data"@ + "/topics"@,
{
    get_base_path().concat("/topics")
}

} // verus!
