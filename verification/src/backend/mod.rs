//! The plugin-facing backend types: configuration, admission, conversion,
//! instance management and automatic mTLS support.
pub mod admission;
pub mod conversion;
pub mod convert;
pub mod grafana_config;
pub mod instance;
pub mod mtls;

pub use admission::{
    AdmissionOperation, GroupVersionKind, InnerAdmissionRequest, MutationResponse, StatusResult,
    ValidationResponse,
};
pub use conversion::{ConversionResponse, GroupVersion, InnerConversionRequest, RawObject};
pub use convert::ConvertFromError;
pub use grafana_config::{ConfigError, FeatureToggles, GrafanaConfig};
pub use instance::{
    app_instance_key, app_needs_update, AppContext, CacheEntry, CacheKey, Instance, InstanceCache,
};
