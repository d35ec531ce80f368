use ascii_rendr::config::{AsciiConfig, ConfigError};

#[test]
fn test_default_config_is_valid() {
    let config = AsciiConfig::default();
    assert!(config.validate().is_ok());
}

#[test]
fn test_invalid_kernel_size() {
    let mut config = AsciiConfig::default();
    config.kernel_size = 0;
    assert!(config.validate().is_err());

    config.kernel_size = 11;
    assert!(config.validate().is_err());
}

#[test]
fn test_invalid_sigma() {
    let mut config = AsciiConfig::default();
    config.sigma = -1000;
    assert!(config.validate().is_err());

    config.sigma = 6000;
    assert!(config.validate().is_err());
}

#[test]
fn test_error_reports_kernel_size() {
    let mut config = AsciiConfig::default();
    config.kernel_size = 11;
    assert_eq!(config.validate(), Err(ConfigError::KernelSize(11)));
}

#[test]
fn test_error_reports_sigma() {
    let mut config = AsciiConfig::default();
    config.sigma = 6000;
    assert_eq!(config.validate(), Err(ConfigError::Sigma(6000)));
}

#[test]
fn test_error_reports_sigma_scale() {
    let mut config = AsciiConfig::default();
    config.sigma_scale = -1;
    assert_eq!(config.validate(), Err(ConfigError::SigmaScale(-1)));
}

#[test]
fn test_error_reports_tau() {
    let mut config = AsciiConfig::default();
    config.tau = 1101;
    assert_eq!(config.validate(), Err(ConfigError::Tau(1101)));
}

#[test]
fn test_error_reports_threshold() {
    let mut config = AsciiConfig::default();
    config.threshold = 0;
    assert_eq!(config.validate(), Err(ConfigError::Threshold(0)));

    config.threshold = 101;
    assert_eq!(config.validate(), Err(ConfigError::Threshold(101)));
}

#[test]
fn test_error_reports_edge_threshold() {
    let mut config = AsciiConfig::default();
    config.edge_threshold = 65;
    assert_eq!(config.validate(), Err(ConfigError::EdgeThreshold(65)));
}

#[test]
fn test_first_violation_wins() {
    let mut config = AsciiConfig::default();
    config.kernel_size = 0;
    config.tau = 9999;
    assert_eq!(config.validate(), Err(ConfigError::KernelSize(0)));
}
