//! The rules that a submitted form has to meet once its challenge is passed.

use vstd::prelude::*;
use vstd::string::*;
use vstd::utf8::encode_utf8;

use crate::simple_captcha::{is_alphanumeric, random_alphanumeric};

verus! {

/// Longest accepted name or e-mail address, in bytes.
pub const NAME_LIMIT: usize = 200;

/// Longest accepted description, in bytes.
pub const DESCRIPTION_LIMIT: usize = 10000;

/// Number of characters in the identifier of a stored request.
pub const IDENTIFIER_LENGTH: usize = 30;

/// The field of a submission that broke a rule.
#[derive(Debug, Clone, Copy, PartialEq, Eq, Structural)]
pub enum FieldError {
    GivenName,
    Surname,
    EmailAddress,
    RequestDescription,
}

impl FieldError {
    /// The key of the message that tells the sender of the error.
    pub fn message_key(&self) -> (key: &'static str)
        ensures
            key@ == match *self {
                FieldError::GivenName => "alert_error_msg_given_name_not_valid"@,
                FieldError::Surname => "alert_error_msg_surname_not_valid"@,
                FieldError::EmailAddress => "alert_error_msg_email_not_valid"@,
                FieldError::RequestDescription => "alert_error_msg_motivation_not_valid"@,
            },
    {
        match self {
            FieldError::GivenName => "alert_error_msg_given_name_not_valid",
            FieldError::Surname => "alert_error_msg_surname_not_valid",
            FieldError::EmailAddress => "alert_error_msg_email_not_valid",
            FieldError::RequestDescription => "alert_error_msg_motivation_not_valid",
        }
    }
}

/// Whether `text` is not empty and takes at most `limit` bytes in UTF-8.
pub open spec fn fits(text: Seq<char>, limit: int) -> bool {
    text.len() > 0 && encode_utf8(text).len() <= limit
}

/// The first field, in the order of the form, that does not fit its limit.
pub open spec fn first_misfit(
    given_name: Seq<char>,
    surname: Seq<char>,
    email_address: Seq<char>,
    request_description: Seq<char>,
) -> Result<(), FieldError> {
    if !fits(given_name, NAME_LIMIT as int) {
        Err(FieldError::GivenName)
    } else if !fits(surname, NAME_LIMIT as int) {
        Err(FieldError::Surname)
    } else if !fits(email_address, NAME_LIMIT as int) {
        Err(FieldError::EmailAddress)
    } else if !fits(request_description, DESCRIPTION_LIMIT as int) {
        Err(FieldError::RequestDescription)
    } else {
        Ok(())
    }
}

fn field_fits(text: &str, limit: usize) -> (ok: bool)
    ensures
        ok == fits(text@, limit as int),
{
    !text.is_empty() && text.as_bytes().len() <= limit
}

/// Checks the fields of a submission in the order of the form and names the
/// first that is empty or too long.
pub fn check_fields(
    given_name: &str,
    surname: &str,
    email_address: &str,
    request_description: &str,
) -> (outcome: Result<(), FieldError>)
    ensures
        outcome == first_misfit(given_name@, surname@, email_address@, request_description@),
{
    if !field_fits(given_name, NAME_LIMIT) {
        Err(FieldError::GivenName)
    } else if !field_fits(surname, NAME_LIMIT) {
        Err(FieldError::Surname)
    } else if !field_fits(email_address, NAME_LIMIT) {
        Err(FieldError::EmailAddress)
    } else if !field_fits(request_description, DESCRIPTION_LIMIT) {
        Err(FieldError::RequestDescription)
    } else {
        Ok(())
    }
}

/// Draws the identifier under which a request is stored: random ASCII letters
/// and digits.
pub fn new_identifier() -> (identifier: String)
    ensures
        identifier@.len() == IDENTIFIER_LENGTH,
        forall|i: int| 0 <= i < identifier@.len() ==> is_alphanumeric(#[trigger] identifier@[i]),
{
    random_alphanumeric(IDENTIFIER_LENGTH)
}

/// The path of the file that holds the request `identifier` under `directory`.
pub fn request_path(directory: &str, identifier: &str) -> (path: String)
    ensures
        path@ == directory@ + "/request_"@ + identifier@ + ".json"@,
{
    let mut path = String::from_str(directory);
    path.append("/request_");
    path.append(identifier);
    path.append(".json");
    path
}

/// The path of the form in the language with the tag `lang`.
pub fn form_path(lang: &str) -> (path: String)
    ensures
        path@ == "/"@ + lang@ + "/formular"@,
{
    let mut path = String::from_str("/");
    path.append(lang);
    path.append("/formular");
    path
}

} // verus!
