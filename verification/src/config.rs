//! Configuration.
use std::path::PathBuf;

use vstd::prelude::*;

use crate::error::PhronesisError;
use crate::text::copy_str;

verus! {

/// `std::path::PathBuf`, carried through the library without being inspected.
#[verifier::external_type_specification]
#[verifier::external_body]
pub struct ExPathBuf(PathBuf);

/// `PathBuf::clone`, so that a configuration can be copied. Nothing is claimed of the
/// copy: the path is never inspected by the library.
pub assume_specification[ <PathBuf as Clone>::clone ](p: &PathBuf) -> PathBuf;

/// Where the memory lives and which embedding to use.
#[derive(Debug, Clone)]
pub struct Config {
    pub data_root: PathBuf,
    pub openai_api_key: Option<String>,
    pub embedding_model: String,
}

/// The model used when none is configured.
pub open spec fn default_embedding_model() -> Seq<char> {
    "text-embedding-3-small"@
}

impl Config {
    /// Builds the configuration from the values of `PHRONESIS_DATA_ROOT`,
    /// `OPENAI_API_KEY` and `PHRONESIS_EMBEDDING_MODEL` (each `None` when unset).
    /// Fails exactly when the data root is unset.
    pub fn from_env_values(
        data_root: Option<PathBuf>,
        openai_api_key: Option<String>,
        embedding_model: Option<String>,
    ) -> (r: Result<Config, PhronesisError>)
        ensures
            data_root is None <==> r is Err,
            r matches Err(e) ==> e == PhronesisError::Config(e->Config_0) && e->Config_0@
                == "PHRONESIS_DATA_ROOT not set"@,
            r matches Ok(c) ==> {
                &&& Some(c.data_root) == data_root
                &&& c.openai_api_key == openai_api_key
                &&& c.embedding_model@ == match embedding_model {
                    Some(m) => m@,
                    None => default_embedding_model(),
                }
            },
    {
        match data_root {
            None => Err(PhronesisError::Config(copy_str("PHRONESIS_DATA_ROOT not set"))),
            Some(root) => {
                let model = match embedding_model {
                    Some(m) => m,
                    None => copy_str("text-embedding-3-small"),
                };
                Ok(Config { data_root: root, openai_api_key, embedding_model: model })
            },
        }
    }

    /// OpenAI embeddings are used exactly when an API key is set and not empty.
    pub fn use_openai(&self) -> (r: bool)
        ensures
            r == (self.openai_api_key matches Some(k) && k@.len() > 0),
    {
        match &self.openai_api_key {
            Some(k) => !k.as_str().is_empty(),
            None => false,
        }
    }
}

} // verus!
