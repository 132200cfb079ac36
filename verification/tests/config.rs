use coffee::client::{get_api_key, ClientError, CoffeeConfig};

#[test]
fn argument_key_beats_stored_key() {
    let cfg = Some(CoffeeConfig { api_key: String::from("stored") });
    assert_eq!(get_api_key(&cfg, Some("override")), Ok("override"));
}

#[test]
fn stored_key_is_used_without_an_argument() {
    let cfg = Some(CoffeeConfig { api_key: String::from("stored") });
    assert_eq!(get_api_key(&cfg, None), Ok("stored"));
}

#[test]
fn argument_key_works_without_a_config() {
    assert_eq!(get_api_key(&None, Some("override")), Ok("override"));
}

#[test]
fn no_key_anywhere_is_an_error() {
    assert_eq!(get_api_key(&None, None), Err(ClientError::NoApiKey));
}
