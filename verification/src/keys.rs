//! The keys the gateway starts with: its own secret key, kept in a file, and
//! the optional iroh-services API key.

use vstd::prelude::*;

verus! {

/// Length in bytes of an ed25519 secret key.
pub const SECRET_KEY_LENGTH: usize = 32;

/// Why a key file does not hold a secret key.
#[derive(Clone, Copy, Debug, PartialEq, Eq, Structural)]
pub enum KeyFileError {
    /// The file is not exactly [`SECRET_KEY_LENGTH`] bytes long.
    WrongLength,
}

/// The secret key bytes a key file holds: the file is the raw key, exactly
/// [`SECRET_KEY_LENGTH`] bytes.
pub fn secret_key_from_file(contents: Vec<u8>) -> (r: Result<Vec<u8>, KeyFileError>)
    ensures
        contents@.len() == SECRET_KEY_LENGTH ==> (r matches Ok(key) && key@ == contents@),
        contents@.len() != SECRET_KEY_LENGTH ==> r == Err::<Vec<u8>, KeyFileError>(KeyFileError::WrongLength),
{
    if contents.len() == SECRET_KEY_LENGTH {
        Ok(contents)
    } else {
        Err(KeyFileError::WrongLength)
    }
}

/// The iroh-services API key text in use: the run-time setting when it is set,
/// otherwise the build-time one, otherwise none.
pub fn api_key_text(runtime: Option<String>, build_time: Option<&str>) -> (r: Option<String>)
    ensures
        match r {
            Some(key) => match runtime {
                Some(text) => key@ == text@,
                None => build_time matches Some(text) && key@ == text@,
            },
            None => runtime is None && build_time is None,
        },
{
    match runtime {
        Some(text) => Some(text),
        None => match build_time {
            Some(text) => Some(text.to_owned()),
            None => None,
        },
    }
}

} // verus!
