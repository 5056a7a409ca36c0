use concinnity_engine::resource::{ColorLutSources, MaterialNames, TextureSource, TextureSources};
use concinnity_engine::shutdown::ShutdownToken;

#[test]
fn starts_uncanceled_and_sticks_once_canceled() {
    let token = ShutdownToken::new();
    assert!(!token.is_canceled());
    token.cancel();
    assert!(token.is_canceled());
    token.cancel();
    assert!(token.is_canceled());
}

#[test]
fn clones_share_the_flag() {
    let token = ShutdownToken::new();
    let clone = token.clone();
    clone.cancel();
    assert!(token.is_canceled());
}

#[test]
fn source_catalogues_default_to_empty() {
    assert!(TextureSources::default().0.is_empty());
    assert!(ColorLutSources::default().0.is_none());
    assert!(MaterialNames::default().0.is_empty());
    let texture = TextureSource::default();
    assert_eq!((texture.name_id, texture.source.as_str(), texture.image_index), (0, "", 0));
}
