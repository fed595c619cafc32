# grafana-plugin-sdk-rs

An SDK for Grafana backend plugins whose decisions are proved with Verus.

Grafana talks to a backend plugin as a go-plugin subprocess over gRPC. The
library in `src/` holds what a plugin decides and computes, each function
with a contract that Verus checks:

- `backend::grafana_config`: the configuration Grafana sends, its lookups and
  its comma-separated feature toggles.
- `backend::admission`, `backend::conversion`: admission control and resource
  conversion messages, and their exact wire forms.
- `backend::instance`: the instance cache (one instance per key, served while
  its context is current, replaced and handed back for disposal otherwise),
  and the standard key and freshness check of app plugins.
- `backend::mtls`: automatic mTLS: which client certificate to pin, the
  server certificate profile, and the advertised certificate text.
- `httpclient`: the HTTP client builder, which reports the first default
  header that HTTP refuses.
- `buildinfo`, `pluginv2`: build information and the wire messages.

Calls into `base64`, `rcgen`, `rustls-pki-types`, `http` and `reqwest` go
through small trusted wrappers whose doc comments say what is assumed of
each.

`app/` holds what Verus does not check: the tokio runtime and async instance
manager, the rustls server and TLS listener, trace propagation, the axum
resource adapter, and the serde and `std::error::Error` forms of the
library's types.
