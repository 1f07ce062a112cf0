//! Keeping the image host's credentials: they are stored encrypted, under a
//! key derived from the identity of the database that holds them.
//!
//! The cryptography is that of outside crates. Each of their functions is
//! called through one wrapper, and what it computes has a name here rather
//! than a definition; the framing around them is verified: which bytes are
//! hashed, how nonce and ciphertext are laid out, and which failure is
//! reported for which input.

use crate::model::{Row, SmmsUser};
use crate::statements::{save_user_sql, save_user_text};
use crate::store::{labelled, labelled_text};
use aes_gcm::aead::Aead;
use aes_gcm::aead::KeyInit;
use base64::Engine;
use rand::RngCore;
use sha2::Digest;
use vstd::prelude::*;
use vstd::string::*;
use vstd::utf8::{decode_utf8, encode_utf8, valid_utf8};

verus! {

/// The length of a key in bytes.
pub const KEY_LENGTH: usize = 32;

/// The length of a nonce in bytes.
pub const NONCE_LENGTH: usize = 12;

/// The length of an authentication tag in bytes.
pub const TAG_LENGTH: usize = 16;

/// The longest plaintext that AES-GCM takes, in bytes.
pub const PLAINTEXT_LIMIT: u64 = 0x10_0000_0000;

/// What is hashed after the two identifiers when a key is derived.
pub const KEY_SALT: &'static str = "smms_encryption_salt_v1";

/// The failure of a stored secret that is too short to hold a nonce.
pub const MALFORMED: &'static str = "加密数据格式错误";

/// The failure of a secret whose encrypted form would be too long to encode.
pub const OVERLONG: &'static str = "加密数据过长";

/// The SHA-256 digest of a sequence of bytes.
pub uninterp spec fn sha256_digest(data: Seq<u8>) -> Seq<u8>;

/// What AES-256-GCM makes of a plaintext under a key and a nonce, without
/// associated data: the ciphertext followed by the authentication tag.
pub uninterp spec fn aes256_gcm_sealed(key: Seq<u8>, nonce: Seq<u8>, plaintext: Seq<u8>) -> Seq<u8>;

/// The plaintext that AES-256-GCM recovers from a ciphertext with its tag; none
/// where it does not accept them under this key and nonce.
pub uninterp spec fn aes256_gcm_opened(key: Seq<u8>, nonce: Seq<u8>, sealed: Seq<u8>) -> Option<
    Seq<u8>,
>;

/// The standard base64 text of a sequence of bytes, with padding.
pub uninterp spec fn base64_text(data: Seq<u8>) -> Seq<char>;

/// The bytes that a standard base64 text stands for; none where the text is
/// not valid.
pub uninterp spec fn base64_bytes(text: Seq<char>) -> Option<Seq<u8>>;

/// `Digest::digest` of the crate sha2, for `Sha256`: the digest of the bytes,
/// which is 32 bytes long.
#[verifier::external_body]
fn sha256(data: &Vec<u8>) -> (r: Vec<u8>)
    ensures
        r@ == sha256_digest(data@),
        r@.len() == KEY_LENGTH,
{
    sha2::Sha256::digest(data.as_slice()).to_vec()
}

/// `RngCore::fill_bytes` of the crate rand, on the thread's generator: twelve
/// bytes of which nothing is known. The generator is seeded by the operating
/// system when a thread first uses it, and gives up where that fails.
#[verifier::external_body]
fn fresh_nonce() -> (r: Vec<u8>)
    ensures
        r@.len() == NONCE_LENGTH,
{
    let mut bytes = [0u8; 12];
    rand::thread_rng().fill_bytes(&mut bytes);
    bytes.to_vec()
}

/// `Aead::encrypt` of the crate aes-gcm, for `Aes256Gcm`. The cipher is made
/// from `key` by `KeyInit::new_from_slice`, which takes every key of 32 bytes.
/// The call succeeds exactly on a plaintext within the limit of the mode, and
/// gives the ciphertext, which is as long as the plaintext, with its tag of 16
/// bytes. The crate allocates room for both at once, so they must fit a
/// vector. The error carries the crate's description.
#[verifier::external_body]
fn seal(key: &Vec<u8>, nonce: &Vec<u8>, plaintext: &Vec<u8>) -> (r: Result<Vec<u8>, String>)
    requires
        key@.len() == KEY_LENGTH,
        nonce@.len() == NONCE_LENGTH,
        plaintext@.len() + TAG_LENGTH <= isize::MAX,
    ensures
        r is Ok <==> plaintext@.len() <= PLAINTEXT_LIMIT,
        r matches Ok(sealed) ==> sealed@ == aes256_gcm_sealed(key@, nonce@, plaintext@)
            && sealed@.len() == plaintext@.len() + TAG_LENGTH,
{
    let cipher = aes_gcm::Aes256Gcm::new_from_slice(key.as_slice()).map_err(|e| e.to_string())?;
    let nonce = aes_gcm::Nonce::from_slice(nonce.as_slice());
    cipher.encrypt(nonce, plaintext.as_slice()).map_err(|e| e.to_string())
}

/// `Aead::decrypt` of the crate aes-gcm, for `Aes256Gcm` with the cipher made
/// from `key` as in [`seal`]: the plaintext, or the crate's description of the
/// failure where the ciphertext and its tag are not accepted.
#[verifier::external_body]
fn open(key: &Vec<u8>, nonce: &Vec<u8>, sealed: &Vec<u8>) -> (r: Result<Vec<u8>, String>)
    requires
        key@.len() == KEY_LENGTH,
        nonce@.len() == NONCE_LENGTH,
    ensures
        match r {
            Ok(plaintext) => aes256_gcm_opened(key@, nonce@, sealed@) == Some(plaintext@),
            Err(_) => aes256_gcm_opened(key@, nonce@, sealed@) is None,
        },
{
    let cipher = aes_gcm::Aes256Gcm::new_from_slice(key.as_slice()).map_err(|e| e.to_string())?;
    let nonce = aes_gcm::Nonce::from_slice(nonce.as_slice());
    cipher.decrypt(nonce, sealed.as_slice()).map_err(|e| e.to_string())
}

/// `Engine::encode` of the crate base64, for the standard engine. The crate
/// gives up where the text, four characters for every three bytes or part of
/// them, does not fit a vector.
#[verifier::external_body]
fn encode_base64(data: &Vec<u8>) -> (r: String)
    requires
        (data@.len() / 3 + 1) * 4 <= isize::MAX,
    ensures
        r@ == base64_text(data@),
{
    base64::engine::general_purpose::STANDARD.encode(data.as_slice())
}

/// `Engine::decode` of the crate base64, for the standard engine: the bytes,
/// or the crate's description of what is wrong with the text.
#[verifier::external_body]
fn decode_base64(text: &str) -> (r: Result<Vec<u8>, String>)
    ensures
        match r {
            Ok(data) => base64_bytes(text@) == Some(data@),
            Err(_) => base64_bytes(text@) is None,
        },
{
    base64::engine::general_purpose::STANDARD.decode(text).map_err(|e| e.to_string())
}

/// `String::from_utf8` of the standard library: the text that the bytes
/// encode, or the library's description of the failure where they are not
/// valid UTF-8.
#[verifier::external_body]
fn text_of_utf8(bytes: Vec<u8>) -> (r: Result<String, String>)
    ensures
        match r {
            Ok(text) => valid_utf8(bytes@) && text@ == decode_utf8(bytes@),
            Err(_) => !valid_utf8(bytes@),
        },
{
    String::from_utf8(bytes).map_err(|e| e.to_string())
}

/// The stage at which a stored secret fails to open.
#[derive(Debug, Clone, Copy, PartialEq, Eq, Structural)]
pub enum VaultFailure {
    /// The stored text is not base64.
    Encoding,
    /// The stored bytes are too few to hold a nonce.
    Format,
    /// The cipher does not accept the bytes under this key.
    Cipher,
    /// The plaintext is not UTF-8.
    Text,
}

/// The key for the secrets of one database: the digest of the account's
/// identifier, the database's identifier and the salt, in this order.
pub open spec fn encryption_key(account_id: Seq<char>, database_id: Seq<char>) -> Seq<u8> {
    sha256_digest(encode_utf8(account_id) + encode_utf8(database_id) + encode_utf8(KEY_SALT@))
}

/// The stored form of a secret: the nonce followed by what the cipher makes
/// of the secret's bytes, as base64.
pub open spec fn sealed_text(secret: Seq<char>, key: Seq<u8>, nonce: Seq<u8>) -> Seq<char> {
    base64_text(nonce + aes256_gcm_sealed(key, nonce, encode_utf8(secret)))
}

/// Whether this many bytes can be encoded as base64 on this machine.
pub open spec fn encodable(length: int) -> bool {
    length / 3 < isize::MAX / 4
}

/// Whether a secret can be sealed: its bytes are within the cipher's limit,
/// and nonce, ciphertext and tag together can be encoded.
pub open spec fn sealable(secret: Seq<char>) -> bool {
    encode_utf8(secret).len() <= PLAINTEXT_LIMIT && encodable(
        encode_utf8(secret).len() + NONCE_LENGTH + TAG_LENGTH,
    )
}

/// The message reports why a secret cannot be sealed: the fixed text where
/// its sealed form cannot be encoded, otherwise the cipher's description
/// under its label.
pub open spec fn reports_unsealable(message: Seq<char>, secret: Seq<char>) -> bool {
    if !encodable(encode_utf8(secret).len() + NONCE_LENGTH + TAG_LENGTH) {
        message == OVERLONG@
    } else {
        exists|detail: Seq<char>| message == labelled_text("加密失败"@, detail)
    }
}

/// What a stored secret opens to under a key, or the stage at which it fails.
pub open spec fn opened_text(stored: Seq<char>, key: Seq<u8>) -> Result<Seq<char>, VaultFailure> {
    match base64_bytes(stored) {
        None => Err(VaultFailure::Encoding),
        Some(data) => if data.len() < NONCE_LENGTH {
            Err(VaultFailure::Format)
        } else {
            match aes256_gcm_opened(
                key,
                data.subrange(0, NONCE_LENGTH as int),
                data.subrange(NONCE_LENGTH as int, data.len() as int),
            ) {
                None => Err(VaultFailure::Cipher),
                Some(plaintext) => if valid_utf8(plaintext) {
                    Ok(decode_utf8(plaintext))
                } else {
                    Err(VaultFailure::Text)
                },
            }
        },
    }
}

/// The message reports this failure: the fixed text for a malformed secret,
/// otherwise the label of the stage followed by a description.
pub open spec fn reports(message: Seq<char>, failure: VaultFailure) -> bool {
    match failure {
        VaultFailure::Encoding => exists|detail: Seq<char>|
            message == labelled_text("解码加密数据失败"@, detail),
        VaultFailure::Format => message == MALFORMED@,
        VaultFailure::Cipher => exists|detail: Seq<char>| message == labelled_text("解密失败"@, detail),
        VaultFailure::Text => exists|detail: Seq<char>|
            message == labelled_text("解密后的数据不是有效的 UTF-8"@, detail),
    }
}

/// Copies the bytes of `data` from `from` up to `to`.
fn copy_range(data: &Vec<u8>, from: usize, to: usize) -> (r: Vec<u8>)
    requires
        from <= to <= data.len(),
    ensures
        r@ == data@.subrange(from as int, to as int),
{
    let mut out: Vec<u8> = Vec::new();
    let mut i: usize = from;
    while i < to
        invariant
            from <= i <= to <= data.len(),
            out@ == data@.subrange(from as int, i as int),
        decreases to - i,
    {
        out.push(data[i]);
        i = i + 1;
    }
    out
}

/// Appends the bytes of `tail` to `out`.
fn append_bytes(out: &mut Vec<u8>, tail: &Vec<u8>)
    ensures
        final(out)@ == old(out)@ + tail@,
{
    let mut i: usize = 0;
    while i < tail.len()
        invariant
            i <= tail.len(),
            out@ == old(out)@ + tail@.subrange(0, i as int),
        decreases tail.len() - i,
    {
        out.push(tail[i]);
        i = i + 1;
    }
    assert(tail@.subrange(0, tail.len() as int) == tail@);
}

/// Derives the key for the secrets of one database.
pub fn derive_encryption_key(account_id: &str, database_id: &str) -> (r: Vec<u8>)
    ensures
        r@ == encryption_key(account_id@, database_id@),
        r@.len() == KEY_LENGTH,
{
    let mut material = account_id.as_bytes_vec();
    let second = database_id.as_bytes_vec();
    let salt = KEY_SALT.as_bytes_vec();
    append_bytes(&mut material, &second);
    append_bytes(&mut material, &salt);
    sha256(&material)
}

/// Encrypts a secret under a key with the given nonce, and lays it out for
/// storage. It fails on a secret whose sealed form is too long to encode, and
/// on one beyond the cipher's limit, with the cipher's description.
pub fn seal_secret(secret: &str, key: &Vec<u8>, nonce: &Vec<u8>) -> (r: Result<String, String>)
    requires
        key@.len() == KEY_LENGTH,
        nonce@.len() == NONCE_LENGTH,
    ensures
        match r {
            Ok(stored) => sealable(secret@) && stored@ == sealed_text(secret@, key@, nonce@),
            Err(message) => !sealable(secret@) && reports_unsealable(message@, secret@),
        },
{
    let plaintext = secret.as_bytes_vec();
    let framed_length = match plaintext.len().checked_add(NONCE_LENGTH + TAG_LENGTH) {
        Some(length) => length,
        None => return Err(String::from_str(OVERLONG)),
    };
    if framed_length / 3 >= (isize::MAX as usize) / 4 {
        return Err(String::from_str(OVERLONG));
    }
    let sealed = match seal(key, nonce, &plaintext) {
        Ok(sealed) => sealed,
        Err(detail) => {
            let message = labelled("加密失败", detail.as_str());
            assert(message@ == labelled_text("加密失败"@, detail@));
            return Err(message);
        },
    };
    let mut framed = copy_range(nonce, 0, nonce.len());
    assert(framed@ == nonce@);
    append_bytes(&mut framed, &sealed);
    Ok(encode_base64(&framed))
}

/// Encrypts a secret for storage under the key of the given database, with a
/// nonce drawn at random: the stored form is that of [`seal_secret`] for some
/// nonce. It succeeds exactly on a secret that can be sealed.
pub fn encrypt_password(password: &str, account_id: &str, database_id: &str) -> (r: Result<
    String,
    String,
>)
    ensures
        match r {
            Ok(stored) => sealable(password@) && exists|nonce: Seq<u8>|
                nonce.len() == NONCE_LENGTH && stored@ == #[trigger] sealed_text(
                    password@,
                    encryption_key(account_id@, database_id@),
                    nonce,
                ),
            Err(message) => !sealable(password@) && reports_unsealable(message@, password@),
        },
{
    let key = derive_encryption_key(account_id, database_id);
    let nonce = fresh_nonce();
    seal_secret(password, &key, &nonce)
}

/// Opens a stored secret under a key.
pub fn open_secret(stored: &str, key: &Vec<u8>) -> (r: Result<String, String>)
    requires
        key@.len() == KEY_LENGTH,
    ensures
        match r {
            Ok(secret) => opened_text(stored@, key@) == Ok::<Seq<char>, VaultFailure>(secret@),
            Err(message) => opened_text(stored@, key@) is Err && reports(
                message@,
                opened_text(stored@, key@)->Err_0,
            ),
        },
{
    let data = match decode_base64(stored) {
        Ok(data) => data,
        Err(detail) => {
            let message = labelled("解码加密数据失败", detail.as_str());
            assert(message@ == labelled_text("解码加密数据失败"@, detail@));
            return Err(message);
        },
    };
    if data.len() < NONCE_LENGTH {
        return Err(String::from_str(MALFORMED));
    }
    let nonce = copy_range(&data, 0, NONCE_LENGTH);
    let body = copy_range(&data, NONCE_LENGTH, data.len());
    let plaintext = match open(key, &nonce, &body) {
        Ok(plaintext) => plaintext,
        Err(detail) => {
            let message = labelled("解密失败", detail.as_str());
            assert(message@ == labelled_text("解密失败"@, detail@));
            return Err(message);
        },
    };
    match text_of_utf8(plaintext) {
        Ok(secret) => Ok(secret),
        Err(detail) => {
            let message = labelled("解密后的数据不是有效的 UTF-8", detail.as_str());
            assert(message@ == labelled_text("解密后的数据不是有效的 UTF-8"@, detail@));
            Err(message)
        },
    }
}

/// Decrypts a stored secret under the key of the given database.
pub fn decrypt_password(encrypted: &str, account_id: &str, database_id: &str) -> (r: Result<
    String,
    String,
>)
    ensures
        match r {
            Ok(secret) => opened_text(encrypted@, encryption_key(account_id@, database_id@)) == Ok::<
                Seq<char>,
                VaultFailure,
            >(secret@),
            Err(message) => opened_text(encrypted@, encryption_key(account_id@, database_id@)) is Err
                && reports(
                message@,
                opened_text(encrypted@, encryption_key(account_id@, database_id@))->Err_0,
            ),
        },
{
    let key = derive_encryption_key(account_id, database_id);
    open_secret(encrypted, &key)
}

/// The failure of a request for credentials where the store holds none.
pub const NO_CREDENTIALS: &'static str = "未找到 SM.MS 凭证";

/// The failure of a row of credentials without a user name.
pub const NO_USERNAME: &'static str = "用户名字段缺失";

/// The failure of a row of credentials without a password.
pub const NO_PASSWORD: &'static str = "密码字段缺失";

/// The stored token of a row of credentials; empty where the row has none.
pub open spec fn stored_token(row: Row) -> Seq<char> {
    match row.text_of("encrypted_api_token"@) {
        Some(token) => token,
        None => Seq::empty(),
    }
}

/// The token that a row of credentials opens to: empty where none is stored.
pub open spec fn opened_token(row: Row, key: Seq<u8>) -> Result<Seq<char>, VaultFailure> {
    if stored_token(row).len() == 0 {
        Ok(Seq::empty())
    } else {
        opened_text(stored_token(row), key)
    }
}

/// Builds the statement that stores a user's credentials: password and token
/// are sealed under the key of the given database, each with a nonce of its
/// own, and it succeeds exactly where both can be sealed.
pub fn save_user_statement(
    username: &str,
    password: &str,
    token: &str,
    account_id: &str,
    database_id: &str,
) -> (r: Result<String, String>)
    ensures
        match r {
            Ok(statement) => sealable(password@) && sealable(token@) && exists|
                first: Seq<u8>,
                second: Seq<u8>,
            |
                first.len() == NONCE_LENGTH && second.len() == NONCE_LENGTH && statement@
                    == save_user_text(
                    username@,
                    #[trigger] sealed_text(
                        password@,
                        encryption_key(account_id@, database_id@),
                        first,
                    ),
                    #[trigger] sealed_text(token@, encryption_key(account_id@, database_id@), second),
                ),
            Err(message) => if !sealable(password@) {
                reports_unsealable(message@, password@)
            } else {
                !sealable(token@) && reports_unsealable(message@, token@)
            },
        },
{
    let sealed_password = match encrypt_password(password, account_id, database_id) {
        Ok(sealed) => sealed,
        Err(message) => return Err(message),
    };
    let sealed_token = match encrypt_password(token, account_id, database_id) {
        Ok(sealed) => sealed,
        Err(message) => return Err(message),
    };
    Ok(save_user_sql(username, sealed_password.as_str(), sealed_token.as_str()))
}

/// Reads a user's credentials from the rows that the query for them
/// returned, and opens them under the key of the given database. The first
/// row counts. A missing token is an empty one.
pub fn user_from_rows(rows: &Vec<Row>, account_id: &str, database_id: &str) -> (r: Result<
    SmmsUser,
    String,
>)
    ensures
        match r {
            Ok(user) => {
                &&& rows.len() > 0
                &&& rows[0].text_of("username"@) == Some(user.username@)
                &&& rows[0].text_of("encrypted_password"@) is Some
                &&& opened_text(
                    rows[0].text_of("encrypted_password"@)->0,
                    encryption_key(account_id@, database_id@),
                ) == Ok::<Seq<char>, VaultFailure>(user.password@)
                &&& opened_token(rows[0], encryption_key(account_id@, database_id@)) == Ok::<
                    Seq<char>,
                    VaultFailure,
                >(user.token@)
            },
            Err(message) => if rows.len() == 0 {
                message@ == NO_CREDENTIALS@
            } else if rows[0].text_of("username"@) is None {
                message@ == NO_USERNAME@
            } else if rows[0].text_of("encrypted_password"@) is None {
                message@ == NO_PASSWORD@
            } else if opened_text(
                rows[0].text_of("encrypted_password"@)->0,
                encryption_key(account_id@, database_id@),
            ) is Err {
                reports(
                    message@,
                    opened_text(
                        rows[0].text_of("encrypted_password"@)->0,
                        encryption_key(account_id@, database_id@),
                    )->Err_0,
                )
            } else {
                opened_token(rows[0], encryption_key(account_id@, database_id@)) is Err && reports(
                    message@,
                    opened_token(rows[0], encryption_key(account_id@, database_id@))->Err_0,
                )
            },
        },
{
    if rows.len() == 0 {
        return Err(String::from_str(NO_CREDENTIALS));
    }
    let username = match rows[0].get_text("username") {
        Some(v) => v,
        None => return Err(String::from_str(NO_USERNAME)),
    };
    let sealed_password = match rows[0].get_text("encrypted_password") {
        Some(v) => v,
        None => return Err(String::from_str(NO_PASSWORD)),
    };
    let sealed_token = match rows[0].get_text("encrypted_api_token") {
        Some(v) => v,
        None => String::new(),
    };
    let password = match decrypt_password(sealed_password.as_str(), account_id, database_id) {
        Ok(v) => v,
        Err(message) => return Err(message),
    };
    let token = if sealed_token.as_str().is_empty() {
        String::new()
    } else {
        match decrypt_password(sealed_token.as_str(), account_id, database_id) {
            Ok(v) => v,
            Err(message) => return Err(message),
        }
    };
    Ok(SmmsUser { username, password, token })
}

} // verus!
