use purrcrypt::cli::{
    choose_dialect, config_text, decrypt_output_path, dialect_from_config, dialect_from_name,
    encrypt_output_path, key_name,
};
use purrcrypt::command::{is_verbose, parse_args, ArgError, Command};
use purrcrypt::dialect::CipherDialect;

fn args(v: &[&str]) -> Vec<String> {
    v.iter().map(|s| s.to_string()).collect()
}

#[test]
fn parse_help_and_simple_commands() {
    assert!(matches!(parse_args(&args(&["purr"])), Ok(Command::Help)));
    assert!(matches!(parse_args(&args(&["purr", "-v"])), Ok(Command::Help)));
    assert!(matches!(parse_args(&args(&["purr", "bogus"])), Ok(Command::Help)));
    assert!(matches!(parse_args(&args(&["purr", "-k"])), Ok(Command::ListKeys)));
    assert!(matches!(parse_args(&args(&["purr", "listkeys"])), Ok(Command::ListKeys)));
    match parse_args(&args(&["purr", "genkey", "alice"])) {
        Ok(Command::GenerateKey { name }) => assert_eq!(name, Some("alice".to_string())),
        _ => panic!("expected genkey"),
    }
    match parse_args(&args(&["purr", "--verbose", "genkey"])) {
        Ok(Command::GenerateKey { name }) => assert_eq!(name, None),
        _ => panic!("expected genkey"),
    }
    match parse_args(&args(&["purr", "set-dialect", "dog"])) {
        Ok(Command::SetDialect { dialect }) => assert_eq!(dialect, "dog"),
        _ => panic!("expected set-dialect"),
    }
    assert_eq!(parse_args(&args(&["purr", "set-dialect"])).err(), Some(ArgError::MissingDialect));
}

#[test]
fn parse_import_key() {
    match parse_args(&args(&["purr", "import-key", "--public", "bob.pub"])) {
        Ok(Command::ImportKey { key_path, is_public }) => {
            assert_eq!(key_path, "bob.pub");
            assert!(is_public);
        }
        _ => panic!("expected import-key"),
    }
    match parse_args(&args(&["purr", "import-key", "me.key"])) {
        Ok(Command::ImportKey { key_path, is_public }) => {
            assert_eq!(key_path, "me.key");
            assert!(!is_public);
        }
        _ => panic!("expected import-key"),
    }
    assert_eq!(parse_args(&args(&["purr", "import-key"])).err(), Some(ArgError::MissingKeyFileToImport));
    assert_eq!(parse_args(&args(&["purr", "import-key", "--public"])).err(), Some(ArgError::MissingKeyFile));
}

#[test]
fn parse_encrypt_and_decrypt() {
    match parse_args(&args(&["purr", "-v", "-e", "-r", "bob", "msg.txt", "extra", "--dialect", "dog", "-o", "out"])) {
        Ok(Command::Encrypt { recipient_key, input_file, output_file, dialect }) => {
            assert_eq!(recipient_key, "bob");
            assert_eq!(input_file, "msg.txt");
            assert_eq!(output_file, Some("out".to_string()));
            assert_eq!(dialect, Some("dog".to_string()));
        }
        _ => panic!("expected encrypt"),
    }
    assert_eq!(parse_args(&args(&["purr", "encrypt", "msg.txt"])).err(), Some(ArgError::MissingRecipientOption));
    assert_eq!(parse_args(&args(&["purr", "encrypt", "-r", "bob"])).err(), Some(ArgError::MissingInputFile));
    assert_eq!(parse_args(&args(&["purr", "encrypt", "msg", "-r"])).err(), Some(ArgError::MissingRecipient));
    assert_eq!(parse_args(&args(&["purr", "-e", "-r", "b", "m", "--dialect"])).err(), Some(ArgError::MissingDialectOverride));
    match parse_args(&args(&["purr", "-d", "m.purr", "-k", "alice"])) {
        Ok(Command::Decrypt { private_key, input_file, output_file }) => {
            assert_eq!(private_key, "alice");
            assert_eq!(input_file, "m.purr");
            assert_eq!(output_file, None);
        }
        _ => panic!("expected decrypt"),
    }
    assert_eq!(parse_args(&args(&["purr", "-d", "m.purr"])).err(), Some(ArgError::MissingPrivateKeyOption));
    assert_eq!(parse_args(&args(&["purr", "-d", "-k", "a", "-o"])).err(), Some(ArgError::MissingOutputFile));
    assert_eq!(ArgError::MissingPrivateKeyOption.message(), "Missing private key (-k)");
}

#[test]
fn verbose_flag() {
    assert!(is_verbose(&args(&["purr", "-e", "-v"])));
    assert!(is_verbose(&args(&["purr", "--verbose"])));
    assert!(!is_verbose(&args(&["purr", "-e", "-r", "x"])));
}

#[test]
fn dialect_names_and_config() {
    assert_eq!(dialect_from_name("cat"), Some(CipherDialect::Cat));
    assert_eq!(dialect_from_name("DoG"), Some(CipherDialect::Dog));
    assert_eq!(dialect_from_name("cow"), None);
    assert_eq!(dialect_from_name("cats"), None);
    assert_eq!(choose_dialect(None, CipherDialect::Dog), Some(CipherDialect::Dog));
    assert_eq!(choose_dialect(Some("CAT"), CipherDialect::Dog), Some(CipherDialect::Cat));
    assert_eq!(choose_dialect(Some("fish"), CipherDialect::Dog), None);
    assert_eq!(dialect_from_config(&config_text(CipherDialect::Dog)), CipherDialect::Dog);
    assert_eq!(dialect_from_config(&config_text(CipherDialect::Cat)), CipherDialect::Cat);
    assert_eq!(dialect_from_config("dog\n"), CipherDialect::Dog);
    assert_eq!(dialect_from_config(""), CipherDialect::Cat);
    assert_eq!(dialect_from_config("garbage"), CipherDialect::Cat);
}

#[test]
fn default_paths_and_names() {
    assert_eq!(encrypt_output_path("msg.txt", None), "msg.txt.purr");
    assert_eq!(encrypt_output_path("msg.txt", Some("o".to_string())), "o");
    assert_eq!(decrypt_output_path("msg.txt.purr", None), "msg.txt");
    assert_eq!(decrypt_output_path("msg.bin", None), "msg.bin.decrypted");
    assert_eq!(decrypt_output_path("x.purr", Some("y".to_string())), "y");
    assert_eq!(key_name(None), "default");
    assert_eq!(key_name(Some("bob".to_string())), "bob");
}
