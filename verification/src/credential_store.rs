//! The LingQ token store on platforms without a system credential manager:
//! nothing is kept, so there is never a token to load.
use vstd::prelude::*;
use crate::text::{chars_of, trim, trim_str};

verus! {

/// The token a system credential store's saved `password` stands for: the
/// password trimmed, none when that is empty.
pub fn token_from_stored_password(password: &str) -> (res: Option<String>)
    ensures
        match res {
            Some(t) => t@ == trim(password@) && t@.len() > 0,
            None => trim(password@).len() == 0,
        },
{
    let trimmed = trim_str(password);
    if chars_of(trimmed.as_str()).len() == 0 {
        None
    } else {
        Some(trimmed)
    }
}

/// What a system credential store keeps for the token `api_key`: the token
/// trimmed.
pub fn password_to_store(api_key: &str) -> (res: String)
    ensures
        res@ == trim(api_key@),
{
    trim_str(api_key)
}

/// The stored LingQ token; there never is one here.
pub fn load_lingq_api_key() -> (res: Result<Option<String>, String>)
    ensures
        res matches Ok(None),
{
    Ok(None)
}

/// Stores the LingQ token; here nothing is kept.
pub fn save_lingq_api_key(api_key: &str) -> (res: Result<(), String>)
    ensures
        res is Ok,
{
    Ok(())
}

/// Removes the stored LingQ token; here there is none.
pub fn clear_lingq_api_key() -> (res: Result<(), String>)
    ensures
        res is Ok,
{
    Ok(())
}

} // verus!
