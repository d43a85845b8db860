use vstd::prelude::*;
use crate::text::{is_blank, all_white, chars_of, string_of, append_str, append_chars};
use crate::num::{decimal, decimal_chars};

verus! {

/// The longest content accepted, in bytes of UTF-8.
pub const MAX_CONTENT_LENGTH: usize = 5000;

/// Why a push request is refused before it is sent.
#[derive(Debug)]
pub enum ValidationError {
    /// The content is longer than the limit; the payload is its length in bytes.
    ContentTooLong(usize),
    /// The task name is empty or white space only.
    NameEmpty,
    /// The content is empty or white space only.
    ContentEmpty,
}

/// The length of a text in bytes of UTF-8, as `str::len` reports it (a text
/// held in memory never has more bytes than `usize` can count).
pub open spec fn byte_len(s: Seq<char>) -> usize {
    vstd::utf8::encode_utf8(s).len() as usize
}

/// What `validate_content` decides for a content and a task name.
pub open spec fn validate_spec(content: Seq<char>, name: Seq<char>) -> Result<(), ValidationError> {
    if all_white(name) {
        Err(ValidationError::NameEmpty)
    } else if all_white(content) {
        Err(ValidationError::ContentEmpty)
    } else if byte_len(content) > MAX_CONTENT_LENGTH {
        Err(ValidationError::ContentTooLong(byte_len(content)))
    } else {
        Ok(())
    }
}

/// Checks a push request: the name and the content must not be blank, and
/// the content must fit in the limit.
pub fn validate_content(content: &str, name: &str) -> (r: Result<(), ValidationError>)
    ensures
        r == validate_spec(content@, name@),
{
    if is_blank(name) {
        return Err(ValidationError::NameEmpty);
    }
    if is_blank(content) {
        return Err(ValidationError::ContentEmpty);
    }
    if content.len() > MAX_CONTENT_LENGTH {
        return Err(ValidationError::ContentTooLong(content.len()));
    }
    Ok(())
}

/// The message that describes a refusal.
pub open spec fn validation_message(e: ValidationError) -> Seq<char> {
    match e {
        ValidationError::ContentTooLong(n) => "内容超出最大长度限制（"@ + decimal(MAX_CONTENT_LENGTH as nat)
            + " 字符），当前长度: "@ + decimal(n as nat),
        ValidationError::NameEmpty => "任务名称不能为空"@,
        ValidationError::ContentEmpty => "内容不能为空"@,
    }
}

impl ValidationError {
    /// The message that describes this refusal.
    pub fn message(&self) -> (r: String)
        ensures
            r@ == validation_message(*self),
    {
        match self {
            ValidationError::ContentTooLong(n) => {
                let mut v = chars_of("内容超出最大长度限制（");
                append_chars(&mut v, &decimal_chars(MAX_CONTENT_LENGTH as u64));
                append_str(&mut v, " 字符），当前长度: ");
                append_chars(&mut v, &decimal_chars(*n as u64));
                string_of(&v)
            },
            ValidationError::NameEmpty => crate::text::owned("任务名称不能为空"),
            ValidationError::ContentEmpty => crate::text::owned("内容不能为空"),
        }
    }
}

/// A request passes exactly when the name and the content are not blank and
/// the content fits in the limit; the checks are made in that order.
pub proof fn lemma_validate_ok_iff(content: Seq<char>, name: Seq<char>)
    ensures
        validate_spec(content, name) is Ok <==> (!all_white(name) && !all_white(content)
            && byte_len(content) <= MAX_CONTENT_LENGTH),
{
}

} // verus!
