use vstd::prelude::*;

verus! {

/// Which kind of store the configuration asks for.
#[derive(Clone, Copy, Debug, PartialEq, Eq, Structural)]
pub enum DbType {
    YamlVec,
}

/// The startup choices the surrounding process reads from its configuration
/// file and hands to the library: the store kind, where received files go,
/// and the contact plan that enables the delivery-time oracle. An absent
/// contact plan leaves prediction disabled.
#[derive(Clone, Debug, PartialEq)]
pub struct Config {
    pub db_type: DbType,
    pub file_reception_dir: Option<String>,
    pub cp_path: Option<String>,
}

impl Config {
    /// Whether this configuration asks for the delivery-time oracle.
    pub fn wants_prediction(&self) -> (r: bool)
        ensures
            r == (self.cp_path is Some),
    {
        self.cp_path.is_some()
    }
}

} // verus!
