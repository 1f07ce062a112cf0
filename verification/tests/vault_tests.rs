use aes_gcm::aead::{Aead, KeyInit};
use base64::Engine;
use smms_mirror::model::{Field, FieldValue, Row, SmmsUser};
use smms_mirror::statements::save_user_sql;
use smms_mirror::vault::{
    decrypt_password, derive_encryption_key, encrypt_password, open_secret, save_user_statement,
    seal_secret, user_from_rows,
};

const KEY_HEX: &str = "c3d0f59bfad51e926a0f3377f83cb19556d84c69626b40a911f33553a65ce692";

fn hex(bytes: &[u8]) -> String {
    bytes.iter().map(|b| format!("{:02x}", b)).collect()
}

fn nonce() -> Vec<u8> {
    (0u8..12).collect()
}

fn credentials(username: Option<&str>, password: Option<&str>, token: Option<&str>) -> Row {
    let mut fields = Vec::new();
    for (name, value) in [
        ("username", username),
        ("encrypted_password", password),
        ("encrypted_api_token", token),
    ] {
        if let Some(v) = value {
            fields.push(Field { name: name.to_string(), value: FieldValue::Text(v.to_string()) });
        }
    }
    Row { fields }
}

#[test]
fn the_key_is_the_digest_of_both_identifiers_and_the_salt() {
    assert_eq!(hex(&derive_encryption_key("acc", "db")), KEY_HEX);
    assert_eq!(derive_encryption_key("acc", "db").len(), 32);
    assert_eq!(derive_encryption_key("ac", "cdb"), derive_encryption_key("acc", "db"));
    assert_ne!(derive_encryption_key("acc", "db2"), derive_encryption_key("acc", "db"));
}

#[test]
fn a_sealed_secret_is_the_nonce_and_the_ciphertext_in_base64() {
    let key = derive_encryption_key("acc", "db");
    assert_eq!(
        seal_secret("pässword", &key, &nonce()),
        Ok("AAECAwQFBgcICQoLU1Z6QdacQLiNDLuKXbEQZOG7QJqKJF9EUQ==".to_string())
    );
    assert_eq!(
        seal_secret("", &key, &nonce()),
        Ok("AAECAwQFBgcICQoLXTN01rws0gSBQeifjO6E8g==".to_string())
    );
}

#[test]
fn a_stored_secret_opens_to_the_secret() {
    let key = derive_encryption_key("acc", "db");
    assert_eq!(
        open_secret("AAECAwQFBgcICQoLU1Z6QdacQLiNDLuKXbEQZOG7QJqKJF9EUQ==", &key),
        Ok("pässword".to_string())
    );
    assert_eq!(
        decrypt_password("AAECAwQFBgcICQoLXTN01rws0gSBQeifjO6E8g==", "acc", "db"),
        Ok(String::new())
    );
}

#[test]
fn encrypting_twice_gives_two_texts_that_both_open() {
    let first = encrypt_password("s3cret'", "acc", "db").unwrap();
    let second = encrypt_password("s3cret'", "acc", "db").unwrap();
    assert_ne!(first, second);
    assert_eq!(decrypt_password(&first, "acc", "db"), Ok("s3cret'".to_string()));
    assert_eq!(decrypt_password(&second, "acc", "db"), Ok("s3cret'".to_string()));
    let bytes = base64::engine::general_purpose::STANDARD.decode(&first).unwrap();
    assert_eq!(bytes.len(), 12 + "s3cret'".len() + 16);
}

#[test]
fn a_text_that_is_not_base64_fails_at_the_encoding() {
    let message = decrypt_password("not base64!!", "acc", "db").unwrap_err();
    assert!(message.starts_with("解码加密数据失败: "), "{}", message);
    assert!(message.len() > "解码加密数据失败: ".len());
}

#[test]
fn a_secret_too_short_for_a_nonce_is_malformed() {
    let short = base64::engine::general_purpose::STANDARD.encode([1u8; 11]);
    assert_eq!(decrypt_password(&short, "acc", "db"), Err("加密数据格式错误".to_string()));
    assert_eq!(decrypt_password("", "acc", "db"), Err("加密数据格式错误".to_string()));
}

#[test]
fn a_secret_under_another_key_fails_at_the_cipher() {
    let stored = "AAECAwQFBgcICQoLU1Z6QdacQLiNDLuKXbEQZOG7QJqKJF9EUQ==";
    let message = decrypt_password(stored, "acc", "other").unwrap_err();
    assert!(message.starts_with("解密失败: "), "{}", message);
    let only_nonce = base64::engine::general_purpose::STANDARD.encode([0u8; 12]);
    let message = decrypt_password(&only_nonce, "acc", "db").unwrap_err();
    assert!(message.starts_with("解密失败: "), "{}", message);
    let mut bytes = base64::engine::general_purpose::STANDARD.decode(stored).unwrap();
    let last = bytes.len() - 1;
    bytes[last] ^= 1;
    let tampered = base64::engine::general_purpose::STANDARD.encode(&bytes);
    let message = decrypt_password(&tampered, "acc", "db").unwrap_err();
    assert!(message.starts_with("解密失败: "), "{}", message);
}

#[test]
fn a_plaintext_that_is_not_text_fails_at_the_end() {
    let key = derive_encryption_key("acc", "db");
    let cipher = aes_gcm::Aes256Gcm::new_from_slice(&key).unwrap();
    let sealed = cipher.encrypt(aes_gcm::Nonce::from_slice(&nonce()), &[0xffu8, 0xfe][..]).unwrap();
    let mut framed = nonce();
    framed.extend_from_slice(&sealed);
    let stored = base64::engine::general_purpose::STANDARD.encode(&framed);
    let message = decrypt_password(&stored, "acc", "db").unwrap_err();
    assert!(message.starts_with("解密后的数据不是有效的 UTF-8: "), "{}", message);
}

#[test]
fn credentials_are_read_from_the_first_row() {
    let password = encrypt_password("pw", "acc", "db").unwrap();
    let token = encrypt_password("tok", "acc", "db").unwrap();
    let rows = vec![
        credentials(Some("alice"), Some(&password), Some(&token)),
        credentials(Some("bob"), Some("x"), None),
    ];
    assert_eq!(
        user_from_rows(&rows, "acc", "db"),
        Ok(SmmsUser {
            username: "alice".to_string(),
            password: "pw".to_string(),
            token: "tok".to_string(),
        })
    );
}

#[test]
fn a_missing_token_is_an_empty_one() {
    let password = encrypt_password("pw", "acc", "db").unwrap();
    for token in [None, Some("")] {
        assert_eq!(
            user_from_rows(&vec![credentials(Some("alice"), Some(&password), token)], "acc", "db"),
            Ok(SmmsUser {
                username: "alice".to_string(),
                password: "pw".to_string(),
                token: String::new(),
            })
        );
    }
}

#[test]
fn credentials_fail_on_what_is_missing_or_does_not_open() {
    let password = encrypt_password("pw", "acc", "db").unwrap();
    assert_eq!(user_from_rows(&Vec::new(), "acc", "db"), Err("未找到 SM.MS 凭证".to_string()));
    assert_eq!(
        user_from_rows(&vec![credentials(None, Some(&password), None)], "acc", "db"),
        Err("用户名字段缺失".to_string())
    );
    assert_eq!(
        user_from_rows(&vec![credentials(Some("a"), None, None)], "acc", "db"),
        Err("密码字段缺失".to_string())
    );
    let message =
        user_from_rows(&vec![credentials(Some("a"), Some(&password), None)], "acc", "wrong")
            .unwrap_err();
    assert!(message.starts_with("解密失败: "), "{}", message);
    let message =
        user_from_rows(&vec![credentials(Some("a"), Some(&password), Some("%%%"))], "acc", "db")
            .unwrap_err();
    assert!(message.starts_with("解码加密数据失败: "), "{}", message);
}

#[test]
fn the_statement_for_credentials_holds_them_sealed() {
    let statement = save_user_statement("o'neil", "pw", "tok", "acc", "db").unwrap();
    let head = "INSERT INTO smms_user (username, encrypted_password, encrypted_api_token, updated_at) VALUES ('o''neil', '";
    assert!(statement.starts_with(head), "{}", statement);
    let rest = &statement[head.len()..];
    let parts: Vec<&str> = rest.split("', '").collect();
    assert_eq!(decrypt_password(parts[0], "acc", "db"), Ok("pw".to_string()));
    let token = parts[1].split('\'').next().unwrap();
    assert_eq!(decrypt_password(token, "acc", "db"), Ok("tok".to_string()));
    assert_eq!(statement, save_user_sql("o'neil", parts[0], token));
}
