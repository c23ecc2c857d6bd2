//! The knobs for traces must stay reachable, compression included.

use web_transport::quinn;
use web_transport::{QlogCompression, Settings};

#[test]
fn settings_expose_qlog() {
    let mut settings = Settings::default();
    settings.qlog_dir = Some("/tmp/qlog".to_string());
    settings.qlog_compression = QlogCompression::Gzip;

    assert_eq!(settings.qlog_dir.as_deref(), Some("/tmp/qlog"));
    assert_eq!(settings.qlog_compression, QlogCompression::Gzip);
}

#[test]
fn transport_config_exposes_qlog() {
    let mut config = quinn::QlogConfig::default();
    config.writer(Box::new(std::io::sink()));

    let mut transport = quinn::TransportConfig::default();
    transport.qlog_stream(config.into_stream());
}
