//! The decisions of the offline-first model catalog of a provider: when to
//! use what models.dev returned and when to serve the catalog on disk.
use vstd::prelude::*;

verus! {

/// What happened while serving the raw model catalog.
#[derive(Debug, Clone, Copy, PartialEq, Eq)]
pub enum CatalogEvent {
    /// The catalog was asked for, online or offline.
    Requested { online: bool },
    /// models.dev answered; whether it lists the provider.
    ModelsDevLoaded { has_provider: bool },
    /// models.dev could not be read.
    ModelsDevFailed,
}

/// What serving the raw model catalog does next.
#[derive(Debug, Clone, Copy, PartialEq, Eq)]
pub enum CatalogStep {
    /// Ask models.dev for its providers.
    LoadModelsDev,
    /// Build the catalog from the provider's models.dev entry, save it and
    /// serve it.
    ServeFromModelsDev,
    /// Serve the catalog the provider already has.
    ServeOffline,
}

/// Decides the next step of serving the raw model catalog: only an online
/// request asks models.dev, and only an answer that lists the provider is
/// served from it.
pub fn raw_model_catalog_step(event: CatalogEvent) -> (r: CatalogStep)
    ensures
        match event {
            CatalogEvent::Requested { online } => r == (if online {
                CatalogStep::LoadModelsDev
            } else {
                CatalogStep::ServeOffline
            }),
            CatalogEvent::ModelsDevLoaded { has_provider } => r == (if has_provider {
                CatalogStep::ServeFromModelsDev
            } else {
                CatalogStep::ServeOffline
            }),
            CatalogEvent::ModelsDevFailed => r == CatalogStep::ServeOffline,
        },
{
    match event {
        CatalogEvent::Requested { online } => {
            if online {
                CatalogStep::LoadModelsDev
            } else {
                CatalogStep::ServeOffline
            }
        },
        CatalogEvent::ModelsDevLoaded { has_provider } => {
            if has_provider {
                CatalogStep::ServeFromModelsDev
            } else {
                CatalogStep::ServeOffline
            }
        },
        CatalogEvent::ModelsDevFailed => CatalogStep::ServeOffline,
    }
}

/// What the background refresh of a provider's catalog does once models.dev
/// has answered, or failed to.
#[derive(Debug, Clone, Copy, PartialEq, Eq)]
pub enum RefreshStep {
    /// models.dev could not be read: stop quietly.
    Stop,
    /// models.dev does not list the provider: warn and stop.
    WarnProviderMissing,
    /// Write the provider's catalog from its models.dev entry.
    WriteCatalog,
}

/// Decides the background refresh's step from what models.dev returned:
/// `None` when it could not be read, else whether it lists the provider.
pub fn background_refresh_step(models_dev: Option<bool>) -> (r: RefreshStep)
    ensures
        match models_dev {
            None => r == RefreshStep::Stop,
            Some(true) => r == RefreshStep::WriteCatalog,
            Some(false) => r == RefreshStep::WarnProviderMissing,
        },
{
    match models_dev {
        None => RefreshStep::Stop,
        Some(has_provider) => {
            if has_provider {
                RefreshStep::WriteCatalog
            } else {
                RefreshStep::WarnProviderMissing
            }
        },
    }
}

} // verus!
