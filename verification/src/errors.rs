use vstd::prelude::*;

verus! {

/// The error kinds the vault engine reports to callers. Cryptographic,
/// filesystem and serialization failures all surface as typed errors; the
/// engine never panics on corrupted or attacker-controlled input.
#[derive(Debug, Clone)]
pub enum RpmError {
    /// Bad key length, decryption/authentication failure, malformed salt,
    /// base64 or password-hash string.
    Crypto(String),
    /// Configuration handling failure.
    Config(String),
    /// Terminal interface failure, carried as a message by the shell.
    Tui(String),
    /// Listener failure, carried as a message by the shell.
    Server(String),
    /// Tray shell failure, carried as a message by the shell.
    Tray(String),
    /// Filesystem failure, carried as a message by the I/O shell.
    Io(String),
    /// Malformed serialized index or record content.
    Serialization(String),
    /// Master password verification mismatch.
    AuthenticationFailed,
    /// Caller-supplied malformed argument.
    InvalidInput(String),
}

pub type RpmResult<T> = Result<T, RpmError>;

impl RpmError {
    /// True for errors raised by the cipher or key-derivation layer.
    pub fn is_crypto(&self) -> (r: bool)
        ensures
            r == (self is Crypto),
    {
        match self {
            RpmError::Crypto(_) => true,
            _ => false,
        }
    }
}

} // verus!
