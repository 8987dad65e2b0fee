use crow_core::config::Config;

#[test]
fn test_parse_model() {
    let (provider, model) = Config::parse_model("anthropic/sonnet-4");
    assert_eq!(provider, "anthropic");
    assert_eq!(model, "sonnet-4");

    let (provider, model) = Config::parse_model("gpt-4o");
    assert_eq!(provider, "default");
    assert_eq!(model, "gpt-4o");
}
