use codex_providers::catalog::{
    background_refresh_step, raw_model_catalog_step, CatalogEvent, CatalogStep, RefreshStep,
};
use codex_providers::paths::provider_scoped_cache_path;

#[test]
fn online_requests_ask_models_dev() {
    assert_eq!(
        raw_model_catalog_step(CatalogEvent::Requested { online: true }),
        CatalogStep::LoadModelsDev
    );
    assert_eq!(
        raw_model_catalog_step(CatalogEvent::Requested { online: false }),
        CatalogStep::ServeOffline
    );
}

#[test]
fn models_dev_answers_decide_the_catalog() {
    assert_eq!(
        raw_model_catalog_step(CatalogEvent::ModelsDevLoaded { has_provider: true }),
        CatalogStep::ServeFromModelsDev
    );
    assert_eq!(
        raw_model_catalog_step(CatalogEvent::ModelsDevLoaded { has_provider: false }),
        CatalogStep::ServeOffline
    );
    assert_eq!(
        raw_model_catalog_step(CatalogEvent::ModelsDevFailed),
        CatalogStep::ServeOffline
    );
}

#[test]
fn background_refresh_steps() {
    assert_eq!(background_refresh_step(None), RefreshStep::Stop);
    assert_eq!(background_refresh_step(Some(false)), RefreshStep::WarnProviderMissing);
    assert_eq!(background_refresh_step(Some(true)), RefreshStep::WriteCatalog);
}

#[test]
fn provider_cache_path_is_scoped_by_provider() {
    assert_eq!(
        provider_scoped_cache_path("/home/u/.codex", "anthropic"),
        "/home/u/.codex/models_cache.anthropic.json"
    );
}
