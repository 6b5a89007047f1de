use gmpass::vault::{decrypt_vault, encrypt_vault, password_strength_score, Entry, Vault, VaultError};

fn vault_json(name: &str, username: &str, password: &str, url: &str) -> Vec<u8> {
    let mut entry = serde_json::Map::new();
    entry.insert("name".to_string(), serde_json::Value::String(name.to_string()));
    entry.insert("username".to_string(), serde_json::Value::String(username.to_string()));
    entry.insert("password".to_string(), serde_json::Value::String(password.to_string()));
    entry.insert("url".to_string(), serde_json::Value::String(url.to_string()));
    let mut root = serde_json::Map::new();
    root.insert("entries".to_string(), serde_json::Value::Array(vec![serde_json::Value::Object(entry)]));
    serde_json::to_vec(&serde_json::Value::Object(root)).unwrap()
}

fn empty_vault_json() -> Vec<u8> {
    let mut root = serde_json::Map::new();
    root.insert("entries".to_string(), serde_json::Value::Array(Vec::new()));
    serde_json::to_vec(&serde_json::Value::Object(root)).unwrap()
}

#[test]
fn test_encrypt_decrypt_roundtrip() {
    let plaintext = vault_json("Test", "user@example.com", "supersecret123!", "https://example.com");
    let password = "testmaster12345";
    let encrypted = encrypt_vault(&plaintext, password);
    let decrypted = decrypt_vault(&encrypted, password).unwrap();
    let value: serde_json::Value = serde_json::from_slice(&decrypted).unwrap();
    let entries = value["entries"].as_array().unwrap();
    assert_eq!(entries.len(), 1);
    assert_eq!(entries[0]["name"], "Test");
    assert_eq!(entries[0]["username"], "user@example.com");
    assert_eq!(entries[0]["password"], "supersecret123!");
}

#[test]
fn test_decrypt_wrong_password() {
    let encrypted = encrypt_vault(&empty_vault_json(), "correctpassword");
    let result = decrypt_vault(&encrypted, "wrongpassword");
    assert!(result.is_err());
    assert_eq!(result, Err(VaultError::WrongPassword));
}

#[test]
fn test_decrypt_corrupted_data() {
    let result = decrypt_vault(&[0u8; 10], "password");
    assert!(result.is_err());
    assert_eq!(result, Err(VaultError::TooSmall));
}

#[test]
fn test_password_strength_too_short() {
    let (score, label, _) = password_strength_score("abc");
    assert_eq!(score, 0);
    assert_eq!(label, "Too short");
}

#[test]
fn test_password_strength_weak() {
    let (score, label, _) = password_strength_score("abcdefgh");
    assert_eq!(score, 1);
    assert_eq!(label, "Weak");
}

#[test]
fn test_password_strength_fair() {
    let (score, label, _) = password_strength_score("abcdefG1");
    assert_eq!(score, 2);
    assert_eq!(label, "Fair");
}

#[test]
fn test_password_strength_good() {
    let (score, label, _) = password_strength_score("abcdefghijG1");
    assert_eq!(score, 3);
    assert_eq!(label, "Good");
}

#[test]
fn test_password_strength_strong() {
    let (score, label, _) = password_strength_score("Abcdefghijklmno1!");
    assert_eq!(score, 4);
    assert_eq!(label, "Strong");
}

#[test]
fn test_entry_matches_name() {
    let mut entry = Entry::new_password();
    entry.name = "GitHub".to_string();
    assert!(entry.matches("git"));
    assert!(entry.matches("GITHUB"));
    assert!(!entry.matches("gitlab"));
}

#[test]
fn test_entry_matches_username() {
    let mut entry = Entry::new_password();
    entry.username = "alice@example.com".to_string();
    assert!(entry.matches("alice"));
    assert!(entry.matches("example"));
}

#[test]
fn test_entry_matches_tags() {
    let mut entry = Entry::new_password();
    entry.tags = vec!["work".to_string(), "dev".to_string()];
    assert!(entry.matches("work"));
    assert!(entry.matches("dev"));
    assert!(!entry.matches("personal"));
}

#[test]
fn test_entry_matches_folder() {
    let mut entry = Entry::new_password();
    entry.folder = "Work/Email".to_string();
    assert!(entry.matches("work"));
    assert!(entry.matches("email"));
}

#[test]
fn test_new_vault_empty() {
    let vault = Vault::new();
    assert!(vault.entries.is_empty());
}

#[test]
fn test_encrypt_different_each_time() {
    let plaintext = empty_vault_json();
    let password = "testpassword";
    let enc1 = encrypt_vault(&plaintext, password);
    let enc2 = encrypt_vault(&plaintext, password);
    assert_ne!(enc1, enc2);
}
