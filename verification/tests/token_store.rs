use pixie::token_store::{read_token, token_file_contents, TokenStoreError};

#[test]
fn missing_file_is_not_found() {
    assert_eq!(read_token(&None), Err(TokenStoreError::NotFound));
}

#[test]
fn blank_file_is_empty() {
    assert_eq!(read_token(&Some(String::new())), Err(TokenStoreError::Empty));
    assert_eq!(read_token(&Some(" \n\t ".to_string())), Err(TokenStoreError::Empty));
}

#[test]
fn stored_token_is_trimmed() {
    assert_eq!(read_token(&Some("abc123\n".to_string())), Ok("abc123".to_string()));
    assert_eq!(read_token(&Some("  abc 123 \r\n".to_string())), Ok("abc 123".to_string()));
}

#[test]
fn token_is_stored_as_one_line() {
    assert_eq!(token_file_contents("abc123"), "abc123\n");
    assert_eq!(token_file_contents(""), "\n");
}

#[test]
fn stored_token_reads_back() {
    for token in ["abc123", "tok en", " padded "] {
        let contents = token_file_contents(token);
        assert_eq!(read_token(&Some(contents)), Ok(token.trim().to_string()));
    }
}
