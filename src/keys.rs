//! Key management: the API key actions and the shapes of the key endpoints'
//! responses.
use crate::client::Client;
use vstd::prelude::*;

verus! {

/// To interact with the Keys API.
pub struct ClientKeys<'a> {
    /// The client that carries the requests.
    pub client: Client<'a>,
}

/// The actions that an API key can allow.
#[derive(Debug, Clone, Copy, PartialEq, Eq, Structural)]
pub enum Actions {
    /// Allows only search requests.
    DocumentsSearch,
    /// Allows fetching a single document.
    DocumentsGet,
    /// Allows all kinds of document related operations.
    DocumentsAll,
    /// Allows a collection to be deleted.
    CollectionsDelete,
    /// Allows a collection to be created.
    CollectionsCreate,
    /// Allows all kinds of collection related operations.
    CollectionsAll,
    /// Allows all operations.
    All,
}

/// The response to creating a key.
pub struct ClientKeyCreate {
    /// The key's id.
    pub id: usize,
    /// What the key allows.
    pub actions: Vec<Actions>,
    /// The collections it applies to.
    pub collections: Vec<String>,
    /// The key itself.
    pub value: String,
    /// Its description.
    pub description: String,
}

/// The metadata of one key.
pub struct ClientKeyRetrieve {
    /// What the key allows.
    pub actions: Vec<Actions>,
    /// The collections it applies to.
    pub collections: Vec<String>,
    /// Its description.
    pub description: String,
    /// The key's id.
    pub id: usize,
    /// The first characters of the key.
    pub value_prefix: String,
}

/// The metadata of all keys.
pub struct ClientKeyRetrieveAll {
    /// One entry per key.
    pub keys: Vec<ClientKeyRetrieve>,
}

/// The response to deleting a key.
pub struct ClientKeyDelete {
    /// The id of the deleted key.
    pub id: usize,
}

} // verus!
