use purrcrypt::error::PurrError;
use purrcrypt::keystore::{import_mode, mode_is_private, permissions_are_strict, Keystore};

#[test]
fn keystore_layout() {
    let ks = Keystore::at("/home/alice");
    assert_eq!(ks.home_dir, "/home/alice/.purr");
    assert_eq!(ks.keys_dir, "/home/alice/.purr/keys");
    assert_eq!(ks.public_dir(), "/home/alice/.purr/keys/public");
    assert_eq!(ks.private_dir(), "/home/alice/.purr/keys/private");
    let (p, k) = ks.get_key_paths("alice");
    assert_eq!(p, "/home/alice/.purr/keys/public/alice.pub");
    assert_eq!(k, "/home/alice/.purr/keys/private/alice.key");
}

#[test]
fn keystore_resolution() {
    let ks = Keystore::at("/h");
    assert_eq!(ks.resolve_key("alice", false, true, true), Ok("/h/.purr/keys/public/alice.pub".to_string()));
    assert_eq!(ks.resolve_key("alice", false, true, false), Ok("/h/.purr/keys/private/alice.key".to_string()));
    assert_eq!(ks.resolve_key("./some/odd-file.bin", true, false, true), Ok("./some/odd-file.bin".to_string()));
    assert_eq!(ks.resolve_key("./some/odd-file.bin", true, true, false), Ok("./some/odd-file.bin".to_string()));
    assert_eq!(ks.resolve_key("nobody", false, false, true), Err(PurrError::KeyNotFound));
}

#[test]
fn import_destinations() {
    let ks = Keystore::at("/h");
    assert_eq!(ks.import_destination("bob.pub", true), "/h/.purr/keys/public/bob.pub");
    assert_eq!(ks.import_destination("bob.key", false), "/h/.purr/keys/private/bob.key");
}

#[test]
fn permission_enforcement() {
    assert_eq!(import_mode(false), Some(0o600));
    assert_eq!(import_mode(true), None);
    assert!(mode_is_private(0o600));
    assert!(mode_is_private(0o700));
    assert!(!mode_is_private(0o644));
    assert!(!mode_is_private(0o620));
    assert!(permissions_are_strict(0o700, &[0o600, 0o400]));
    assert!(!permissions_are_strict(0o700, &[0o600, 0o604]));
    assert!(!permissions_are_strict(0o755, &[]));
    assert!(permissions_are_strict(0o700, &[]));
}
