use std::time::Duration;

use grafana_plugin_sdk_rs::httpclient::{
    basic_auth_value, client_settings, header_name_text, new_client, BasicAuth, ClientError,
    Options, TimeoutOptions, TlsOptions,
};

#[test]
fn builds_client_with_options() {
    let client = new_client(&Options {
        basic_auth: Some(BasicAuth::new("user", "pass")),
        headers: vec![("X-Test".to_owned(), "1".to_owned())],
        tls: TlsOptions {
            insecure_skip_verify: true,
            ..Default::default()
        },
        ..Default::default()
    });
    assert!(client.is_ok());
}

#[test]
fn rejects_invalid_header() {
    let result = new_client(&Options {
        headers: vec![("bad header name".to_owned(), "v".to_owned())],
        ..Default::default()
    });
    assert!(matches!(result, Err(ClientError::Header(_))));
}

#[test]
fn invalid_header_name_is_reported_by_name() {
    let result = new_client(&Options {
        headers: vec![
            ("X-Ok".to_owned(), "1".to_owned()),
            ("bad name".to_owned(), "v".to_owned()),
            ("also bad".to_owned(), "v".to_owned()),
        ],
        ..Default::default()
    });
    match result {
        Err(ClientError::Header(m)) => assert_eq!(m, "bad name: invalid HTTP header name"),
        _ => panic!("expected a header error"),
    }
}

#[test]
fn invalid_header_value_is_reported_with_the_lowercase_name() {
    let result = new_client(&Options {
        headers: vec![("X-Test".to_owned(), "line\nbreak".to_owned())],
        ..Default::default()
    });
    match result {
        Err(ClientError::Header(m)) => assert_eq!(m, "x-test: failed to parse header value"),
        _ => panic!("expected a header error"),
    }
}

#[test]
fn basic_auth_value_is_base64_of_user_and_password() {
    let value = basic_auth_value(&BasicAuth::new("user", "pass"));
    assert_eq!(value, "Basic dXNlcjpwYXNz");
    let value = basic_auth_value(&BasicAuth::new("a", "b"));
    assert_eq!(value, "Basic YTpi");
}

#[test]
fn header_names_are_written_in_lower_case() {
    assert_eq!(header_name_text("X-Plugin-ID"), "x-plugin-id");
    assert_eq!(header_name_text("accept"), "accept");
}

#[test]
fn default_options_keep_one_hundred_idle_connections() {
    let options = Options::default();
    assert_eq!(options.timeouts.max_idle_per_host, 100);
    assert_eq!(options.timeouts.timeout, std::time::Duration::from_secs(30));
    assert_eq!(options.timeouts.connect_timeout, std::time::Duration::from_secs(10));
    assert_eq!(options.timeouts.idle_timeout, std::time::Duration::from_secs(90));
    assert!(options.basic_auth.is_none());
    assert!(options.headers.is_empty());
}

#[test]
fn settings_carry_headers_authorization_timeouts_and_tls() {
    let options = Options {
        timeouts: TimeoutOptions {
            timeout: Duration::from_secs(7),
            max_idle_per_host: 0,
            ..Default::default()
        },
        basic_auth: Some(BasicAuth::new("Aladdin", "open sesame")),
        headers: vec![
            ("X-Test".to_owned(), "1".to_owned()),
            ("Authorization".to_owned(), "Bearer x".to_owned()),
            ("x-test".to_owned(), "2".to_owned()),
        ],
        tls: TlsOptions {
            insecure_skip_verify: true,
            ca_certificate: Some("ca".to_owned()),
        },
    };
    let settings = match client_settings(&options) {
        Ok(s) => s,
        Err(_) => panic!("valid options"),
    };
    assert_eq!(settings.timeout, Duration::from_secs(7));
    assert_eq!(settings.connect_timeout, Duration::from_secs(10));
    assert_eq!(settings.idle_timeout, Duration::from_secs(90));
    assert_eq!(settings.pool_max_idle_per_host, usize::MAX);
    assert!(settings.accept_invalid_certs);
    assert_eq!(settings.ca_certificate.as_deref(), Some("ca"));
    let mut headers = settings.headers.clone();
    headers.sort();
    assert_eq!(
        headers,
        vec![
            (
                "authorization".to_owned(),
                "Basic QWxhZGRpbjpvcGVuIHNlc2FtZQ==".to_owned(),
                true
            ),
            ("x-test".to_owned(), "2".to_owned(), false),
        ]
    );
}

#[test]
fn settings_keep_a_positive_pool_limit_and_refuse_bad_headers() {
    let settings = match client_settings(&Options::default()) {
        Ok(s) => s,
        Err(_) => panic!("valid options"),
    };
    assert_eq!(settings.pool_max_idle_per_host, 100);
    assert!(settings.headers.is_empty());
    assert!(!settings.accept_invalid_certs);
    let refused = client_settings(&Options {
        headers: vec![("ok".to_owned(), "bad\nvalue".to_owned())],
        ..Default::default()
    });
    match refused {
        Err(ClientError::Header(m)) => assert_eq!(m, "ok: failed to parse header value"),
        _ => panic!("a bad header value is refused"),
    }
}

#[test]
fn thousands_of_default_headers_are_accepted_and_too_many_are_refused() {
    let headers = |n: usize| -> Vec<(String, String)> {
        (0..n).map(|i| (format!("x-h{i}"), "v".to_owned())).collect()
    };
    let many = new_client(&Options {
        headers: headers(7000),
        ..Default::default()
    });
    assert!(many.is_ok());
    let too_many = new_client(&Options {
        headers: headers(30000),
        ..Default::default()
    });
    assert!(matches!(too_many, Err(ClientError::TooManyHeaders)));
}
