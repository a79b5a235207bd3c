use releasaurus::analyzer_config::AnalyzerConfig;


#[test]
fn analyzer_config_loads_defaults() {
    let config = AnalyzerConfig::default();
    assert!(!config.body.is_empty())
}
