//! The Bridge Token and Cursor API Key: minting a token from the operating
//! system's random source, and the stores that keep both secrets (in memory,
//! or in the operating system's credential store through `keyring`).

use vstd::prelude::*;
use crate::text::push_char;

verus! {

/// Service name under which the Console keeps its secrets.
pub const KEYRING_SERVICE: &'static str = "cursor2api";

/// Account name of the Bridge Token.
pub const KEYRING_TOKEN_USER: &'static str = "bridge-token";

/// Account name of the Cursor API Key.
pub const KEYRING_KEY_USER: &'static str = "cursor-api-key";

/// Where the Bridge Token is kept. Users of the runtime supply their own.
pub trait BridgeTokenStore {
    fn load(&self) -> Result<Option<String>, String>;

    fn save(&mut self, token: &str) -> Result<(), String>;
}

/// Where the Cursor API Key is kept. Users of the runtime supply their own.
pub trait CursorApiKeyStore {
    fn load(&self) -> Result<Option<String>, String>;

    fn save(&mut self, key: &str) -> Result<(), String>;
}

// ---------------------------------------------------------------------------
// Token minting
// ---------------------------------------------------------------------------

#[verifier::external_type_specification]
#[verifier::external_body]
pub struct ExRandomError(getrandom::Error);

/// `getrandom::getrandom`: fills the buffer from the operating system's
/// random source. Nothing is promised of the bytes or of when it fails.
#[verifier::external_body]
fn fill_random(buf: &mut [u8; 32]) -> Result<(), getrandom::Error> {
    getrandom::getrandom(buf)
}

/// The text of a `getrandom::Error`, as its `Display` writes it. Nothing is
/// stated of the text.
#[verifier::external_body]
fn random_error_text(e: &getrandom::Error) -> String {
    e.to_string()
}

/// The lower-case hexadecimal digit for `n < 16`.
pub open spec fn hex_digit(n: nat) -> char {
    if n < 10 {
        (('0' as u32) + n) as char
    } else {
        (('a' as u32) + n - 10) as char
    }
}

/// `format!("{byte:02x}")` for each byte, concatenated.
pub open spec fn hex_of(bytes: Seq<u8>) -> Seq<char>
    decreases bytes.len(),
{
    if bytes.len() == 0 {
        seq![]
    } else {
        let b = bytes.last();
        hex_of(bytes.drop_last()) + seq![hex_digit((b / 16) as nat), hex_digit((b % 16) as nat)]
    }
}

/// A lower-case hexadecimal digit.
pub open spec fn is_hex_lower(c: char) -> bool {
    ('0' <= c && c <= '9') || ('a' <= c && c <= 'f')
}

/// A Bridge Token as the Console mints it: 64 lower-case hex digits (32 random bytes).
pub open spec fn is_minted_token(t: Seq<char>) -> bool {
    t.len() == 64 && forall|i: int| 0 <= i < 64 ==> #[trigger] is_hex_lower(t[i])
}

/// Prefix of the error when no random bytes could be had.
pub open spec fn mint_failed_prefix() -> Seq<char> {
    "无法生成 Bridge Token："@
}

/// Every character of `hex_of` is a lower-case hex digit, two per byte.
proof fn lemma_hex_of(bytes: Seq<u8>)
    ensures
        hex_of(bytes).len() == 2 * bytes.len(),
        forall|i: int| 0 <= i < hex_of(bytes).len() ==> #[trigger] is_hex_lower(hex_of(bytes)[i]),
    decreases bytes.len(),
{
    if bytes.len() > 0 {
        lemma_hex_of(bytes.drop_last());
        let b = bytes.last();
        let h = hex_of(bytes);
        assert forall|i: int| 0 <= i < h.len() implies #[trigger] is_hex_lower(h[i]) by {
            if i < h.len() - 2 {
                assert(h[i] == hex_of(bytes.drop_last())[i]);
            }
        }
    }
}

/// The hex digit character for `n < 16`.
fn hex_char(n: u8) -> (c: char)
    requires
        n < 16,
    ensures
        c == hex_digit(n as nat),
{
    let code: u32 = if n < 10 {
        48 + (n as u32)
    } else {
        97 + (n as u32) - 10
    };
    crate::text::char_from_code(code)
}

/// The bytes in lower-case hexadecimal, two digits each.
pub fn hex_lower(bytes: &[u8]) -> (s: String)
    ensures
        s@ == hex_of(bytes@),
{
    let mut s = String::new();
    let mut i: usize = 0;
    assert(bytes@.take(0) =~= Seq::<u8>::empty());
    while i < bytes.len()
        invariant
            0 <= i <= bytes@.len(),
            s@ == hex_of(bytes@.take(i as int)),
        decreases bytes@.len() - i,
    {
        let b = bytes[i];
        push_char(&mut s, hex_char(b / 16));
        push_char(&mut s, hex_char(b % 16));
        assert(bytes@.take(i + 1).drop_last() =~= bytes@.take(i as int));
        assert(bytes@.take(i + 1).last() == b);
        assert(s@ =~= hex_of(bytes@.take(i + 1)));
        i = i + 1;
    }
    assert(bytes@.take(bytes@.len() as int) =~= bytes@);
    s
}

/// A new Bridge Token: 32 bytes from the operating system's random source,
/// in lower-case hex; or the error text when the source fails.
pub fn generate_bridge_token() -> (r: Result<String, String>)
    ensures
        r matches Ok(t) ==> is_minted_token(t@),
        r matches Err(e) ==> mint_failed_prefix().is_prefix_of(e@),
{
    let mut bytes: [u8; 32] = [0u8; 32];
    match fill_random(&mut bytes) {
        Ok(()) => {
            let t = hex_lower(&bytes);
            proof {
                lemma_hex_of(bytes@);
            }
            Ok(t)
        },
        Err(e) => {
            let mut m = "无法生成 Bridge Token：".to_owned();
            let text = random_error_text(&e);
            crate::text::push_str(&mut m, text.as_str());
            assert(mint_failed_prefix() =~= m@.take(mint_failed_prefix().len() as int));
            Err(m)
        },
    }
}

// ---------------------------------------------------------------------------
// In-memory stores
// ---------------------------------------------------------------------------

/// A Bridge Token store that keeps the token in memory.
#[derive(Debug)]
pub struct MemoryTokenStore {
    inner: Option<String>,
}

impl MemoryTokenStore {
    /// An empty store.
    pub fn new() -> (s: Self)
        ensures
            s.stored_view() is None,
    {
        MemoryTokenStore { inner: None }
    }

    /// The token held, if any.
    pub closed spec fn stored_view(self) -> Option<Seq<char>> {
        match self.inner {
            Some(t) => Some(t@),
            None => None,
        }
    }

    /// A copy of the token held.
    pub fn stored(&self) -> (r: Option<String>)
        ensures
            r matches Some(t) ==> self.stored_view() == Some(t@),
            r is None ==> self.stored_view() is None,
    {
        match &self.inner {
            Some(t) => Some(t.clone()),
            None => None,
        }
    }
}

impl Default for MemoryTokenStore {
    fn default() -> (s: Self)
        ensures
            s.stored_view() is None,
    {
        MemoryTokenStore::new()
    }
}

impl BridgeTokenStore for MemoryTokenStore {
    fn load(&self) -> (r: Result<Option<String>, String>)
        ensures
            r matches Ok(Some(t)) ==> self.stored_view() == Some(t@),
            r matches Ok(None) ==> self.stored_view() is None,
            r is Ok,
    {
        Ok(self.stored())
    }

    fn save(&mut self, token: &str) -> (r: Result<(), String>)
        ensures
            r is Ok,
            final(self).stored_view() == Some(token@),
    {
        self.inner = Some(token.to_owned());
        Ok(())
    }
}

/// A Cursor API Key store that keeps the key in memory.
#[derive(Debug)]
pub struct MemoryCursorApiKeyStore {
    inner: Option<String>,
}

impl MemoryCursorApiKeyStore {
    /// An empty store.
    pub fn new() -> (s: Self)
        ensures
            s.stored_view() is None,
    {
        MemoryCursorApiKeyStore { inner: None }
    }

    /// The key held, if any.
    pub closed spec fn stored_view(self) -> Option<Seq<char>> {
        match self.inner {
            Some(t) => Some(t@),
            None => None,
        }
    }

    /// A copy of the key held.
    pub fn stored(&self) -> (r: Option<String>)
        ensures
            r matches Some(t) ==> self.stored_view() == Some(t@),
            r is None ==> self.stored_view() is None,
    {
        match &self.inner {
            Some(t) => Some(t.clone()),
            None => None,
        }
    }
}

impl Default for MemoryCursorApiKeyStore {
    fn default() -> (s: Self)
        ensures
            s.stored_view() is None,
    {
        MemoryCursorApiKeyStore::new()
    }
}

impl CursorApiKeyStore for MemoryCursorApiKeyStore {
    fn load(&self) -> (r: Result<Option<String>, String>)
        ensures
            r matches Ok(Some(t)) ==> self.stored_view() == Some(t@),
            r matches Ok(None) ==> self.stored_view() is None,
            r is Ok,
    {
        Ok(self.stored())
    }

    fn save(&mut self, key: &str) -> (r: Result<(), String>)
        ensures
            r is Ok,
            final(self).stored_view() == Some(key@),
    {
        self.inner = Some(key.to_owned());
        Ok(())
    }
}

// ---------------------------------------------------------------------------
// Operating-system credential store (`keyring`)
// ---------------------------------------------------------------------------

#[verifier::external_type_specification]
#[verifier::external_body]
pub struct ExKeyringEntry(keyring::Entry);

#[verifier::external_type_specification]
#[verifier::external_body]
pub struct ExKeyringError(keyring::Error);

/// `keyring::Entry::new`: the credential of `user` under `service`. Nothing
/// is stated of the result: whether it succeeds depends on the platform's
/// credential store.
#[verifier::external_body]
fn keyring_entry(service: &str, user: &str) -> Result<keyring::Entry, keyring::Error> {
    keyring::Entry::new(service, user)
}

/// `keyring::Entry::get_password`: the secret stored for the entry. Nothing is
/// stated of the result: it is whatever the platform's credential store holds.
#[verifier::external_body]
fn keyring_get(entry: &keyring::Entry) -> Result<String, keyring::Error> {
    entry.get_password()
}

/// `keyring::Entry::set_password`: stores the secret for the entry. Nothing is
/// stated of the result: whether the store accepts it is up to the platform.
#[verifier::external_body]
fn keyring_set(entry: &keyring::Entry, secret: &str) -> Result<(), keyring::Error> {
    entry.set_password(secret)
}

/// Whether a `keyring::Error` is the variant `NoEntry` (nothing stored yet).
/// Nothing is stated of the answer: the error value is opaque here.
#[verifier::external_body]
fn keyring_is_no_entry(e: &keyring::Error) -> bool {
    match e {
        keyring::Error::NoEntry => true,
        _ => false,
    }
}

/// The text of a `keyring::Error`, as its `Display` writes it. Nothing is
/// stated of the text.
#[verifier::external_body]
fn keyring_error_text(e: &keyring::Error) -> String {
    e.to_string()
}

/// What a read of a secret found.
#[derive(Debug)]
pub enum SecretRead {
    /// A stored value (possibly empty).
    Value(String),
    /// Nothing is stored.
    Missing,
    /// The store failed with this text.
    Failed(String),
}

/// A secret as the stores report it: an empty value counts as none.
pub fn interpret_secret(read: SecretRead) -> (r: Result<Option<String>, String>)
    ensures
        match read {
            SecretRead::Value(v) => if v@.len() > 0 {
                r matches Ok(Some(t)) && t@ == v@
            } else {
                r matches Ok(None)
            },
            SecretRead::Missing => r matches Ok(None),
            SecretRead::Failed(e) => r matches Err(m) && m@ == e@,
        },
{
    match read {
        SecretRead::Value(v) => if v.as_str().is_empty() {
            Ok(None)
        } else {
            Ok(Some(v))
        },
        SecretRead::Missing => Ok(None),
        SecretRead::Failed(e) => Err(e),
    }
}

/// Reads the secret of `user` from the operating system's credential store.
pub fn read_secret(service: &str, user: &str) -> (r: Result<Option<String>, String>)
    ensures
        r matches Ok(Some(t)) ==> t@.len() > 0,
{
    let entry = match keyring_entry(service, user) {
        Ok(e) => e,
        Err(e) => return interpret_secret(SecretRead::Failed(keyring_error_text(&e))),
    };
    let read = match keyring_get(&entry) {
        Ok(v) => SecretRead::Value(v),
        Err(e) => if keyring_is_no_entry(&e) {
            SecretRead::Missing
        } else {
            SecretRead::Failed(keyring_error_text(&e))
        },
    };
    interpret_secret(read)
}

/// Writes the secret of `user` to the operating system's credential store.
pub fn write_secret(service: &str, user: &str, secret: &str) -> (r: Result<(), String>) {
    let entry = match keyring_entry(service, user) {
        Ok(e) => e,
        Err(e) => return Err(keyring_error_text(&e)),
    };
    match keyring_set(&entry, secret) {
        Ok(()) => Ok(()),
        Err(e) => Err(keyring_error_text(&e)),
    }
}

/// The Bridge Token kept in the operating system's credential store.
#[derive(Debug, Clone, Copy)]
pub struct KeyringTokenStore;

impl BridgeTokenStore for KeyringTokenStore {
    fn load(&self) -> (r: Result<Option<String>, String>)
        ensures
            r matches Ok(Some(t)) ==> t@.len() > 0,
    {
        read_secret(KEYRING_SERVICE, KEYRING_TOKEN_USER)
    }

    fn save(&mut self, token: &str) -> (r: Result<(), String>) {
        write_secret(KEYRING_SERVICE, KEYRING_TOKEN_USER, token)
    }
}

/// The Cursor API Key kept in the operating system's credential store.
#[derive(Debug, Clone, Copy)]
pub struct KeyringCursorApiKeyStore;

impl CursorApiKeyStore for KeyringCursorApiKeyStore {
    fn load(&self) -> (r: Result<Option<String>, String>)
        ensures
            r matches Ok(Some(t)) ==> t@.len() > 0,
    {
        read_secret(KEYRING_SERVICE, KEYRING_KEY_USER)
    }

    fn save(&mut self, key: &str) -> (r: Result<(), String>) {
        write_secret(KEYRING_SERVICE, KEYRING_KEY_USER, key)
    }
}

} // verus!
