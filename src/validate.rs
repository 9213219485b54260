//! Identifier policies for tenant (app) ids and channel ids.
use vstd::prelude::*;
use vstd::string::StrSliceExecFns;
use crate::types::ChatError;

verus! {

/// The characters an identifier may hold: `a-z`, `0-9`, `-`, `_` and `.`.
pub open spec fn is_id_char(c: char) -> bool {
    ||| 'a' <= c <= 'z'
    ||| '0' <= c <= '9'
    ||| c == '-'
    ||| c == '_'
    ||| c == '.'
}

pub open spec fn has_id_chars(s: Seq<char>) -> bool {
    forall|i: int| 0 <= i < s.len() ==> is_id_char(#[trigger] s[i])
}

/// A tenant id: 2 to 64 identifier characters.
pub open spec fn valid_app_id(s: Seq<char>) -> bool {
    2 <= s.len() <= 64 && has_id_chars(s)
}

/// A channel id: 1 to 128 identifier characters.
pub open spec fn valid_channel_id(s: Seq<char>) -> bool {
    1 <= s.len() <= 128 && has_id_chars(s)
}

/// The reserved tenant id of the chat application.
pub open spec fn chat_app_id() -> Seq<char> {
    seq!['c', 'h', 'a', 't']
}

fn id_chars_ok(s: &str) -> (r: bool)
    ensures
        r == has_id_chars(s@),
{
    let n: usize = s.unicode_len();
    let mut i: usize = 0;
    while i < n
        invariant
            n == s@.len(),
            i <= n,
            forall|j: int| 0 <= j < i ==> is_id_char(#[trigger] s@[j]),
        decreases n - i,
    {
        let c = s.get_char(i);
        let ok = ('a' <= c && c <= 'z') || ('0' <= c && c <= '9') || c == '-' || c == '_' || c
            == '.';
        if !ok {
            return false;
        }
        i += 1;
    }
    true
}

/// Checks the tenant id policy.
pub fn verify_app_id(app_id: &String) -> (r: Result<(), ChatError>)
    ensures
        r is Ok <==> valid_app_id(app_id@),
        r is Err ==> r == Err::<(), ChatError>(ChatError::InvalidAppId),
{
    let n: usize = app_id.as_str().unicode_len();
    if n < 2 || n > 64 {
        return Err(ChatError::InvalidAppId);
    }
    if !id_chars_ok(app_id.as_str()) {
        return Err(ChatError::InvalidAppId);
    }
    Ok(())
}

/// Checks the channel id policy.
pub fn verify_channel_id(channel_id: &String) -> (r: Result<(), ChatError>)
    ensures
        r is Ok <==> valid_channel_id(channel_id@),
        r is Err ==> r == Err::<(), ChatError>(ChatError::InvalidChannelId),
{
    let n: usize = channel_id.as_str().unicode_len();
    if n < 1 || n > 128 {
        return Err(ChatError::InvalidChannelId);
    }
    if !id_chars_ok(channel_id.as_str()) {
        return Err(ChatError::InvalidChannelId);
    }
    Ok(())
}

/// Whether `app_id` is the reserved chat tenant id.
pub fn is_chat_app_id(app_id: &String) -> (r: bool)
    ensures
        r == (app_id@ == chat_app_id()),
{
    let s = app_id.as_str();
    if s.unicode_len() != 4 {
        return false;
    }
    let ok = s.get_char(0) == 'c' && s.get_char(1) == 'h' && s.get_char(2) == 'a' && s.get_char(3)
        == 't';
    if ok {
        assert(s@ =~= chat_app_id());
    }
    ok
}

} // verus!
