use moesif_extproc::config::{
    connection_timeout, default_batch_max_size, default_batch_max_wait, default_debug,
    default_upstream, AppConfigResponse, Config, ConfigError, EntityRuleValues, EnvConfig, EnvVars,
    RegexCondition, RegexRule,
};

fn no_vars() -> EnvVars {
    EnvVars {
        moesif_application_id: None,
        user_id_header: None,
        company_id_header: None,
        batch_max_size: None,
        batch_max_wait: None,
        upstream: None,
        debug: None,
        rust_log: None,
        connection_timeout: None,
    }
}

#[test]
fn defaults_are_the_documented_ones() {
    assert_eq!(default_batch_max_size(), 100);
    assert_eq!(default_batch_max_wait(), 2000);
    assert_eq!(default_upstream(), "outbound|443||api.moesif.net");
    assert!(!default_debug());
    assert_eq!(connection_timeout(), 5000);
}

#[test]
fn empty_environment_gives_the_defaults() {
    let env = EnvConfig::from_vars(no_vars()).unwrap();
    assert_eq!(env.moesif_application_id, "");
    assert_eq!(env.user_id_header, None);
    assert_eq!(env.company_id_header, None);
    assert_eq!(env.batch_max_size, 100);
    assert_eq!(env.batch_max_wait, 2000);
    assert_eq!(env.upstream, "outbound|443||api.moesif.net");
    assert_eq!(env.base_uri, "https://api.moesif.net");
    assert!(!env.debug);
    assert_eq!(env.connection_timeout, 5000);
    assert_eq!(env.rust_log, None);
}

#[test]
fn environment_values_are_taken_over() {
    let mut vars = no_vars();
    vars.moesif_application_id = Some("id".to_string());
    vars.user_id_header = Some("x-user".to_string());
    vars.company_id_header = Some("x-company".to_string());
    vars.batch_max_size = Some("7".to_string());
    vars.batch_max_wait = Some("+250".to_string());
    vars.upstream = Some("outbound|443||collector.example.test".to_string());
    vars.debug = Some("true".to_string());
    vars.rust_log = Some("info".to_string());
    vars.connection_timeout = Some("10".to_string());
    let env = EnvConfig::from_vars(vars).unwrap();
    assert_eq!(env.moesif_application_id, "id");
    assert_eq!(env.user_id_header, Some("x-user".to_string()));
    assert_eq!(env.company_id_header, Some("x-company".to_string()));
    assert_eq!(env.batch_max_size, 7);
    assert_eq!(env.batch_max_wait, 250);
    assert_eq!(env.base_uri, "https://collector.example.test");
    assert!(env.debug);
    assert_eq!(env.rust_log, Some("info".to_string()));
    assert_eq!(env.connection_timeout, 10);
}

#[test]
fn numbers_that_do_not_parse_take_the_defaults() {
    let mut vars = no_vars();
    vars.batch_max_size = Some("many".to_string());
    vars.batch_max_wait = Some("".to_string());
    vars.connection_timeout = Some("-3".to_string());
    vars.debug = Some("TRUE".to_string());
    let env = EnvConfig::from_vars(vars).unwrap();
    assert_eq!(env.batch_max_size, 100);
    assert_eq!(env.batch_max_wait, 2000);
    assert_eq!(env.connection_timeout, 5000);
    assert!(!env.debug);
}

#[test]
fn malformed_upstream_is_refused() {
    for upstream in ["", "api.moesif.net", "a|b|c", "a|b|c|d|e"] {
        let mut vars = no_vars();
        vars.upstream = Some(upstream.to_string());
        assert_eq!(EnvConfig::from_vars(vars).err(), Some(ConfigError::MalformedUpstream));
    }
}

#[test]
fn upstream_url_is_https_and_the_fourth_part() {
    assert_eq!(EnvConfig::parse_upstream_url("outbound|443||api.moesif.net"), Ok("https://api.moesif.net".to_string()));
    assert_eq!(EnvConfig::parse_upstream_url("|||"), Ok("https://".to_string()));
    assert_eq!(EnvConfig::parse_upstream_url("a|b|c"), Err(()));
    assert_eq!(EnvConfig::parse_upstream_url(""), Err(()));
}

#[test]
fn default_configuration_is_empty() {
    let config = Config::default();
    assert_eq!(config.env.batch_max_size, 0);
    assert_eq!(config.env.moesif_application_id, "");
    let copy = config.clone();
    assert_eq!(copy.env.base_uri, "");
}

#[test]
fn remote_configuration_types_hold_their_fields() {
    let mut response = AppConfigResponse::default();
    response.sample_rate = 50;
    response.user_sample_rate.insert("u".to_string(), 10);
    response.regex_config.push(RegexRule {
        conditions: vec![RegexCondition { path: "request.route".to_string(), value: "^/health".to_string() }],
        sample_rate: 0,
    });
    response.user_rules.insert("u".to_string(), vec![EntityRuleValues { rules: "r1".to_string(), values: None }]);
    assert_eq!(response.sample_rate, 50);
    assert_eq!(response.user_sample_rate.get("u"), Some(&10));
    assert_eq!(response.regex_config[0].conditions[0].path, "request.route");
    assert_eq!(response.user_rules.get("u").unwrap()[0].rules, "r1");
    assert!(response.e_tag.is_none());
}
