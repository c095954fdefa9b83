use cf_zt_cleaner::config::{
    CloudFlareConfig, Config, RawCloudFlareConfig, RawConfig, UsersConfig, ENV_CF_ACCOUNT_ID, ENV_CF_API_TOKEN,
};
use cf_zt_cleaner::error::Error;

fn raw(account: Option<&str>, token: Option<&str>) -> RawCloudFlareConfig {
    RawCloudFlareConfig { account_id: account.map(String::from), api_token: token.map(String::from) }
}

fn some(s: &str) -> Option<String> {
    Some(s.to_string())
}

fn missing(r: Result<CloudFlareConfig, Error>) -> String {
    match r {
        Err(Error::MissingCredential(name)) => name,
        other => panic!("unexpected: {other:?}"),
    }
}

#[test]
fn environment_names() {
    assert_eq!(ENV_CF_ACCOUNT_ID, "CF_ACCOUNT_ID");
    assert_eq!(ENV_CF_API_TOKEN, "CF_API_TOKEN");
}

#[test]
fn environment_takes_priority() {
    let c = Config::resolve_cloudflare_config(raw(Some("file-acc"), Some("file-tok")), some("env-acc"), None).unwrap();
    assert_eq!(c.account_id, "env-acc");
    assert_eq!(c.api_token, "file-tok");
    let c = Config::resolve_cloudflare_config(raw(None, None), some("a"), some("t")).unwrap();
    assert_eq!((c.account_id.as_str(), c.api_token.as_str()), ("a", "t"));
}

#[test]
fn missing_credentials_are_named() {
    assert_eq!(missing(Config::resolve_cloudflare_config(raw(None, None), None, None)), "account_id");
    assert_eq!(missing(Config::resolve_cloudflare_config(raw(None, Some("t")), None, None)), "account_id");
    assert_eq!(missing(Config::resolve_cloudflare_config(raw(Some("a"), None), None, None)), "api_token");
}

#[test]
fn clashes_are_reported() {
    assert_eq!(Config::credential_clashes(&raw(Some("a"), Some("t")), &some("x"), &None), (true, false));
    assert_eq!(Config::credential_clashes(&raw(None, Some("t")), &some("x"), &some("y")), (false, true));
    assert_eq!(Config::credential_clashes(&raw(None, None), &some("x"), &some("y")), (false, false));
}

#[test]
fn missing_file_means_empty_permanent_list() {
    let c = Config::from_sources(None, some("a"), some("t")).unwrap();
    assert!(c.users.permanent.is_empty());
    assert_eq!(c.cloudflare.account_id, "a");
    assert_eq!(missing(Config::from_sources(None, None, some("t")).map(|c| c.cloudflare)), "account_id");
}

#[test]
fn file_contents_are_kept() {
    let file = RawConfig {
        cloudflare: raw(Some("a"), Some("t")),
        users: UsersConfig { permanent: vec!["keep@x.com".into()] },
    };
    let c = Config::from_sources(Some(file), None, some("env-t")).unwrap();
    assert_eq!(c.users.permanent, vec!["keep@x.com".to_string()]);
    assert_eq!(c.cloudflare.api_token, "env-t");
}

#[test]
fn empty_sections() {
    assert!(UsersConfig::empty().permanent.is_empty());
    let r = RawCloudFlareConfig::empty();
    assert!(r.account_id.is_none() && r.api_token.is_none());
}
