use outbound_redis::azure::{
    AzureCosmosAuthOptions, AzureCosmosKeyValueRuntimeConfig, AzureCosmosStoreSettings,
    AzureKeyValueStore,
};

#[test]
fn store_with_key_uses_it() {
    let store = AzureKeyValueStore::new("app".to_string());
    let cfg = AzureCosmosKeyValueRuntimeConfig::new(
        Some("secret".to_string()),
        "acct".to_string(),
        "db".to_string(),
        "items".to_string(),
    );
    assert_eq!(
        store.make_store(cfg),
        AzureCosmosStoreSettings {
            account: "acct".to_string(),
            database: "db".to_string(),
            container: "items".to_string(),
            auth: AzureCosmosAuthOptions::RuntimeConfigValues { key: "secret".to_string() },
            app_id: "app".to_string(),
        }
    );
}

#[test]
fn store_without_key_uses_environment() {
    let store = AzureKeyValueStore::new("other".to_string());
    let cfg = AzureCosmosKeyValueRuntimeConfig::new(None, "a".to_string(), "d".to_string(), "c".to_string());
    let s = store.make_store(cfg);
    assert_eq!(s.auth, AzureCosmosAuthOptions::Environmental);
    assert_eq!(s.app_id, "other");
    assert_eq!(s.container, "c");
}
