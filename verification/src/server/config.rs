//! Where the service keeps its data and where it listens.

use vstd::prelude::*;

verus! {

/// The settings of the service.
#[derive(Clone, Debug, PartialEq)]
pub struct Config {
    pub database_path: String,
    pub api_host: [u8; 4],
    pub api_port: u16,
}

/// The path of the database where none is given.
pub open spec fn default_database_path() -> Seq<char> {
    seq!['u', 'r', 'u', 'z', '.', 's', 'l', 'e', 'd']
}

impl Default for Config {
    /// The database in the working directory, every address, port 8000.
    fn default() -> (r: Self)
        ensures
            r.database_path@ == default_database_path(),
            r.api_host@ == seq![0u8, 0u8, 0u8, 0u8],
            r.api_port == 8000,
    {
        proof {
            reveal_strlit("uruz.sled");
            assert("uruz.sled"@ =~= default_database_path());
        }
        let api_host: [u8; 4] = [0, 0, 0, 0];
        assert(api_host@ =~= seq![0u8, 0u8, 0u8, 0u8]);
        Config { database_path: "uruz.sled".to_owned(), api_host, api_port: 8000 }
    }
}

} // verus!
