//! The token store's rules: what the token file holds and what its contents
//! mean. Reading and writing the file itself is left to the caller.

use crate::parser::{is_token, text_view};
use crate::text::{is_blank, is_white_space, lemma_trimmed_idempotent, trim, trim_start, trimmed};
use vstd::prelude::*;
use vstd::string::StringExecFns;

verus! {

/// Why the token file gives no token.
#[derive(Debug, Clone, Copy, PartialEq, Eq, Structural)]
pub enum TokenStoreError {
    /// The file is missing or cannot be read.
    NotFound,
    /// The file holds nothing but whitespace.
    Empty,
}

/// The token that the token file gives, where `contents` is what the file
/// holds, and `None` stands for a file that is missing or unreadable.
pub open spec fn stored_token(contents: Option<Seq<char>>) -> Result<Seq<char>, TokenStoreError> {
    match contents {
        None => Err(TokenStoreError::NotFound),
        Some(raw) => if is_blank(raw) {
            Err(TokenStoreError::Empty)
        } else {
            Ok(trimmed(raw))
        },
    }
}

/// What the token file holds once `token` is stored: the token and a
/// newline.
pub open spec fn token_file_text(token: Seq<char>) -> Seq<char> {
    token.push('\n')
}

/// The view of what reading the token gave.
pub open spec fn read_view(token: Result<String, TokenStoreError>) -> Result<
    Seq<char>,
    TokenStoreError,
> {
    match token {
        Ok(t) => Ok(t@),
        Err(e) => Err(e),
    }
}

/// Reads the token out of what the token file holds. `None` stands for a
/// file that is missing or unreadable.
pub fn read_token(contents: &Option<String>) -> (token: Result<String, TokenStoreError>)
    ensures
        read_view(token) == stored_token(text_view(*contents)),
        token matches Ok(t) ==> is_token(t@),
{
    match contents {
        None => Err(TokenStoreError::NotFound),
        Some(raw) => {
            let text = trim(raw.as_str());
            if text.is_empty() {
                Err(TokenStoreError::Empty)
            } else {
                proof {
                    lemma_trimmed_idempotent(raw@);
                }
                Ok(text.to_owned())
            }
        },
    }
}

/// What to write to the token file to store `token`.
pub fn token_file_contents(token: &str) -> (contents: String)
    ensures
        contents@ == token_file_text(token@),
{
    proof {
        reveal_strlit("\n");
    }
    let contents = token.to_owned().concat("\n");
    assert(contents@ =~= token@.push('\n'));
    contents
}

/// A token that the store hands out is never blank, and is trimmed.
pub proof fn lemma_stored_token_is_token(contents: Option<Seq<char>>)
    ensures
        stored_token(contents) matches Ok(t) ==> is_token(t) && trimmed(t) == t,
{
    if let Some(raw) = contents {
        lemma_trimmed_idempotent(raw);
    }
}

/// A newline at the end of a text does not change what trimming leaves.
pub proof fn lemma_trimmed_ignores_final_newline(s: Seq<char>)
    ensures
        trimmed(s.push('\n')) == trimmed(s),
{
    lemma_trim_start_push(s, '\n');
    let kept = trim_start(s);
    if kept.len() > 0 {
        assert(kept.push('\n').drop_last() =~= kept);
    }
}

/// Leading whitespace is dropped from a text with one more character as it
/// is from the text, as long as something is left of the text; where
/// nothing is left, the new character decides.
proof fn lemma_trim_start_push(s: Seq<char>, c: char)
    ensures
        trim_start(s).len() > 0 ==> trim_start(s.push(c)) == trim_start(s).push(c),
        trim_start(s).len() == 0 && is_white_space(c) ==> trim_start(s.push(c)).len() == 0,
    decreases s.len(),
{
    if s.len() > 0 && is_white_space(s[0]) {
        lemma_trim_start_push(s.drop_first(), c);
        assert(s.push(c).drop_first() =~= s.drop_first().push(c));
    } else if s.len() == 0 {
        if is_white_space(c) {
            assert(s.push(c).drop_first() =~= s);
        }
    }
}

/// Storing a token and reading it back gives the token, trimmed.
pub proof fn lemma_store_then_read(token: Seq<char>)
    requires
        is_token(token),
    ensures
        stored_token(Some(token_file_text(token))) == Ok::<Seq<char>, TokenStoreError>(
            trimmed(token),
        ),
{
    lemma_trimmed_ignores_final_newline(token);
}

} // verus!
