//! Settings for a key-value store kept in an Azure Cosmos DB container.

use vstd::prelude::*;

verus! {

/// A key-value store that uses Azure Cosmos as the backend.
pub struct AzureKeyValueStore {
    app_id: String,
}

/// Runtime configuration for the Azure Cosmos key-value store.
pub struct AzureCosmosKeyValueRuntimeConfig {
    /// The authorization token for the Azure Cosmos DB account.
    key: Option<String>,
    /// The Azure Cosmos DB account name.
    account: String,
    /// The Azure Cosmos DB database.
    database: String,
    /// The Azure Cosmos DB container where data is stored; it must be created
    /// with the default partition key, /id.
    container: String,
}

/// How the store authenticates.
#[derive(Debug, Clone, PartialEq, Eq)]
pub enum AzureCosmosAuthOptions {
    /// With the key given in the runtime configuration.
    RuntimeConfigValues { key: String },
    /// With the credentials of the environment.
    Environmental,
}

/// Everything the store client is built from.
#[derive(Debug, Clone, PartialEq, Eq)]
pub struct AzureCosmosStoreSettings {
    pub account: String,
    pub database: String,
    pub container: String,
    pub auth: AzureCosmosAuthOptions,
    pub app_id: String,
}

impl AzureKeyValueStore {
    pub closed spec fn spec_app_id(&self) -> Seq<char> {
        self.app_id@
    }

    /// Creates a new `AzureKeyValueStore`.
    pub fn new(app_id: String) -> (s: Self)
        ensures
            s.spec_app_id() == app_id@,
    {
        AzureKeyValueStore { app_id }
    }

    /// The settings of the store that `runtime_config` describes: a key in
    /// the configuration is used as given, and without one the environment
    /// supplies the credentials.
    pub fn make_store(&self, runtime_config: AzureCosmosKeyValueRuntimeConfig) -> (r: AzureCosmosStoreSettings)
        ensures
            r.account@ == runtime_config.spec_account(),
            r.database@ == runtime_config.spec_database(),
            r.container@ == runtime_config.spec_container(),
            r.app_id@ == self.spec_app_id(),
            match runtime_config.spec_key() {
                Some(k) => r.auth is RuntimeConfigValues && r.auth->key@ == k,
                None => r.auth is Environmental,
            },
    {
        let auth = match runtime_config.key {
            Some(key) => AzureCosmosAuthOptions::RuntimeConfigValues { key },
            None => AzureCosmosAuthOptions::Environmental,
        };
        AzureCosmosStoreSettings {
            account: runtime_config.account,
            database: runtime_config.database,
            container: runtime_config.container,
            auth,
            app_id: self.app_id.clone(),
        }
    }
}

impl AzureCosmosKeyValueRuntimeConfig {
    pub closed spec fn spec_key(&self) -> Option<Seq<char>> {
        match self.key {
            Some(k) => Some(k@),
            None => None,
        }
    }

    pub closed spec fn spec_account(&self) -> Seq<char> {
        self.account@
    }

    pub closed spec fn spec_database(&self) -> Seq<char> {
        self.database@
    }

    pub closed spec fn spec_container(&self) -> Seq<char> {
        self.container@
    }

    pub fn new(key: Option<String>, account: String, database: String, container: String) -> (c: Self)
        ensures
            c.spec_key() == match key {
                Some(k) => Some(k@),
                None => None::<Seq<char>>,
            },
            c.spec_account() == account@,
            c.spec_database() == database@,
            c.spec_container() == container@,
    {
        AzureCosmosKeyValueRuntimeConfig { key, account, database, container }
    }
}

} // verus!
