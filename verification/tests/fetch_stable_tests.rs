use hydra_check::fetch_stable::NixpkgsChannelVersion;

fn manual_page(channels: &str) -> String {
    format!("<html><body data-nixpkgs-channels='{channels}'><p>manual</p></body></html>")
}

#[test]
fn fetch_stable() -> Result<(), String> {
    let html = manual_page(
        "[{\"channel\":\"rolling\",\"version\":\"24.11\"},\
          {\"channel\":\"stable\",\"version\":\"24.05\"}]",
    );
    println!("latest stable version: {}", NixpkgsChannelVersion::stable(&html)?);
    Ok(())
}

#[test]
fn stable_picks_the_stable_channel() {
    let html = manual_page(
        "[{\"channel\":\"rolling\",\"version\":\"24.11\"},\
          {\"channel\":\"stable\",\"version\":\"24.05\"},\
          {\"channel\":\"stable\",\"version\":\"23.11\"}]",
    );
    assert_eq!(NixpkgsChannelVersion::stable(&html).unwrap(), "24.05");
}

#[test]
fn stable_fails_without_the_channel_attribute() {
    let html = "<html><body><p>manual</p></body></html>";
    let err = NixpkgsChannelVersion::stable(html).unwrap_err();
    assert_eq!(err, "failed to read current channels from the Nixpkgs manual");
}

#[test]
fn stable_fails_when_no_channel_matches() {
    let html = manual_page("[{\"channel\":\"rolling\",\"version\":\"24.11\"}]");
    let err = NixpkgsChannelVersion::stable(&html).unwrap_err();
    assert_eq!(err, "could not find 'stable' from supported channels: [rolling: 24.11]");
}

#[test]
fn malformed_channel_listing_is_refused() {
    let html = manual_page("[{\"channel\":\"stable\"}]");
    assert!(NixpkgsChannelVersion::stable(&html).is_err());
    let html = manual_page("not json");
    assert!(NixpkgsChannelVersion::stable(&html).is_err());
}
