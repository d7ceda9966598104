//! Signing in to the service that hands out jobs: the addresses that are asked, and
//! what is known after each answer.

use vstd::prelude::*;
use vstd::utf8::encode_utf8;

verus! {

/// What a signed-in user may do.
#[derive(Debug, Clone, Copy, PartialEq, Eq, Structural)]
pub enum Permission {
    Admin,
    User,
    Manager,
}

/// The signed-in user.
#[derive(Debug, Clone)]
pub struct User {
    pub name: String,
    pub permissions: Vec<Permission>,
    pub bank_id: i32,
}

/// The answer to a sign-in: whether a one-time code is asked for, and where.
#[derive(Debug, Clone)]
pub struct LoginResult {
    pub otp_required: bool,
    pub otp_url: Option<String>,
}

/// A failed request: the status that stands for it, and what was said.
#[derive(Debug, Clone)]
pub struct AuthenticationError {
    pub status_code: u16,
    pub message: String,
}

impl AuthenticationError {
    /// The failure with the given status and words.
    pub fn new(status_code: u16, message: String) -> (error: AuthenticationError)
        ensures
            error.status_code == status_code,
            error.message == message,
    {
        Self { status_code, message }
    }

    /// A copy of the failure.
    pub fn duplicate(&self) -> (copy: AuthenticationError)
        ensures
            copy == *self,
    {
        Self { status_code: self.status_code, message: self.message.clone() }
    }

    /// What was said of the failure.
    pub fn message(&self) -> (text: &str)
        ensures
            text@ == self.message@,
    {
        self.message.as_str()
    }
}

/// The status that stands for an answer that cannot be read.
pub const STATUS_UNREADABLE: u16 = 500;

/// The status that stands for a service that cannot be reached.
pub const STATUS_UNREACHABLE: u16 = 504;

/// The status that stands for a one-time code that was refused.
pub const STATUS_WRONG_CODE: u16 = 666;

/// Whether a byte is written as it is when a text is percent-encoded: a letter, a
/// digit, or one of `-`, `.`, `_` and `~`.
pub open spec fn is_unreserved(byte: u8) -> bool {
    ||| 0x30 <= byte <= 0x39
    ||| 0x41 <= byte <= 0x5a
    ||| 0x61 <= byte <= 0x7a
    ||| byte == 0x2d
    ||| byte == 0x2e
    ||| byte == 0x5f
    ||| byte == 0x7e
}

/// The hexadecimal digit, in upper case, of a number under 16.
pub open spec fn hex_digit(n: int) -> char {
    if n < 10 {
        ((0x30 + n) as u8) as char
    } else {
        ((0x37 + n) as u8) as char
    }
}

/// Bytes percent-encoded: an unreserved byte as its character, any other as a percent
/// sign and its two hexadecimal digits.
pub open spec fn percent_text(bytes: Seq<u8>) -> Seq<char>
    decreases bytes.len(),
{
    if bytes.len() == 0 {
        Seq::empty()
    } else if is_unreserved(bytes.last()) {
        percent_text(bytes.drop_last()).push(bytes.last() as char)
    } else {
        percent_text(bytes.drop_last()) + seq![
            '%',
            hex_digit((bytes.last() / 16) as int),
            hex_digit((bytes.last() % 16) as int),
        ]
    }
}

/// A text percent-encoded, byte by byte of its UTF-8 form.
pub open spec fn percent_encoded(text: Seq<char>) -> Seq<char> {
    percent_text(encode_utf8(text))
}

/// Percent-encodes a text with `urlencoding::encode`: every byte of the text but
/// letters, digits, `-`, `.`, `_` and `~` becomes a percent sign and two hexadecimal
/// digits in upper case.
#[verifier::external_body]
fn percent_encode(text: &str) -> (encoded: String)
    ensures
        encoded@ == percent_encoded(text@),
{
    urlencoding::encode(text).into_owned()
}

/// How a sign-in request ended.
#[derive(Debug)]
pub enum LoginOutcome {
    /// The service accepted, with this answer.
    Accepted(LoginResult),
    /// The service accepted, but its answer cannot be read; what the reader said.
    Unreadable(String),
    /// The service refused, with this status and these words.
    Refused(u16, String),
    /// The service was not reached; what the sender said.
    Unreachable(String),
}

/// How a request with a one-time code ended.
#[derive(Debug)]
pub enum OtpOutcome {
    /// The service accepted the code.
    Accepted,
    /// The service refused, with this status and these words.
    Refused(u16, String),
    /// The service was not reached; what the sender said.
    Unreachable(String),
}

/// What is known of a session with the service.
#[derive(Debug, Clone)]
pub struct AuthenticationService {
    pub user_info_url: String,
    pub login_url: String,
    pub otp_login_url: String,
    pub user: Option<User>,
    pub last_error: Option<AuthenticationError>,
    pub otp: Option<LoginResult>,
}

/// The words for a failed sign-in, by its status.
pub open spec fn login_error_text(status_code: u16) -> Seq<char> {
    if status_code == 403 {
        "Неверный логин или пароль"@
    } else if status_code == 504 {
        "Сервер недоступен"@
    } else if status_code == 666 {
        "Неверный код"@
    } else {
        "Неизвестная ошибка"@
    }
}

/// A text with another appended.
fn with_suffix(base: &str, suffix: &str) -> (whole: String)
    ensures
        whole@ == base@ + suffix@,
{
    let mut whole = String::from_str(base);
    whole.append(suffix);
    whole
}

impl AuthenticationService {
    /// A session with the service at `base_url`, of which nothing is known yet.
    pub fn new(base_url: &str) -> (service: AuthenticationService)
        ensures
            service.user_info_url@ == base_url@ + "/service/user/info"@,
            service.login_url@ == base_url@ + "/service/login"@,
            service.otp_login_url@ == base_url@ + "/service/otp"@,
            service.user is None,
            service.last_error is None,
            service.otp is None,
    {
        Self {
            user_info_url: with_suffix(base_url, "/service/user/info"),
            login_url: with_suffix(base_url, "/service/login"),
            otp_login_url: with_suffix(base_url, "/service/otp"),
            user: None,
            last_error: None,
            otp: None,
        }
    }

    /// The name of the signed-in user; empty where nobody is signed in.
    pub fn user_name(&self) -> (name: String)
        ensures
            name@ == match self.user {
                Some(user) => user.name@,
                None => Seq::<char>::empty(),
            },
    {
        match &self.user {
            Some(user) => user.name.clone(),
            None => String::new(),
        }
    }

    /// Whether somebody is signed in.
    pub fn is_logged(&self) -> (logged: bool)
        ensures
            logged == self.user is Some,
    {
        self.user.is_some()
    }

    /// Whether the service asks for a one-time code; `None` where no sign-in is under way.
    pub fn is_otp_required(&self) -> (required: Option<bool>)
        ensures
            required == match self.otp {
                Some(otp) => Some(otp.otp_required),
                None => None,
            },
    {
        match &self.otp {
            Some(otp) => Some(otp.otp_required),
            None => None,
        }
    }

    /// Where the one-time code is had; empty where the service named no place.
    pub fn get_otp_url(&self) -> (url: String)
        ensures
            url@ == match self.otp {
                Some(otp) => match otp.otp_url {
                    Some(place) => place@,
                    None => Seq::<char>::empty(),
                },
                None => Seq::<char>::empty(),
            },
    {
        match &self.otp {
            Some(otp) => match &otp.otp_url {
                Some(place) => place.clone(),
                None => String::new(),
            },
            None => String::new(),
        }
    }

    /// The words for the last failure; empty where nothing failed.
    pub fn error_message(&self) -> (text: String)
        ensures
            text@ == match self.last_error {
                Some(error) => login_error_text(error.status_code),
                None => Seq::<char>::empty(),
            },
    {
        match &self.last_error {
            Some(error) => {
                if error.status_code == 403 {
                    String::from_str("Неверный логин или пароль")
                } else if error.status_code == 504 {
                    String::from_str("Сервер недоступен")
                } else if error.status_code == 666 {
                    String::from_str("Неверный код")
                } else {
                    String::from_str("Неизвестная ошибка")
                }
            },
            None => String::new(),
        }
    }

    /// The address that a sign-in is sent to: name and password are percent-encoded.
    pub fn login_request(&self, username: &str, password: &str) -> (url: String)
        ensures
            url@ == self.login_url@ + "?username="@ + percent_encoded(username@) + "&password="@
                + percent_encoded(password@),
    {
        let mut url = self.login_url.clone();
        url.append("?username=");
        let name = percent_encode(username);
        url.append(name.as_str());
        url.append("&password=");
        let secret = percent_encode(password);
        url.append(secret.as_str());
        url
    }

    /// The address that a one-time code is sent to.
    pub fn otp_request(&self, code: &str) -> (url: String)
        ensures
            url@ == self.otp_login_url@ + "?code="@ + percent_encoded(code@),
    {
        let mut url = self.otp_login_url.clone();
        url.append("?code=");
        let encoded = percent_encode(code);
        url.append(encoded.as_str());
        url
    }

    /// Takes note of an accepted sign-in: the last failure is forgotten. Where no
    /// one-time code is asked for, the user is to be fetched next: `true`. Else the
    /// answer is kept until the code is sent.
    pub fn login_success(&mut self, otp: LoginResult) -> (fetch_user: bool)
        ensures
            fetch_user == !otp.otp_required,
            final(self).last_error is None,
            final(self).user == old(self).user,
            final(self).otp == if otp.otp_required {
                Some(otp)
            } else {
                old(self).otp
            },
            final(self).user_info_url == old(self).user_info_url,
            final(self).login_url == old(self).login_url,
            final(self).otp_login_url == old(self).otp_login_url,
    {
        self.last_error = None;
        if !otp.otp_required {
            true
        } else {
            self.otp = Some(otp);
            false
        }
    }

    /// Takes note of a failed sign-in: nobody is signed in, and the failure is kept.
    pub fn login_failed(&mut self, error: AuthenticationError)
        ensures
            final(self).user is None,
            final(self).last_error == Some(error),
            final(self).otp == old(self).otp,
            final(self).user_info_url == old(self).user_info_url,
            final(self).login_url == old(self).login_url,
            final(self).otp_login_url == old(self).otp_login_url,
    {
        self.user = None;
        self.last_error = Some(error);
    }

    /// Takes note of a refused one-time code: nobody is signed in, no sign-in is under
    /// way, and the failure is kept under the status of a wrong code.
    pub fn otp_login_failed(&mut self, error: AuthenticationError)
        ensures
            final(self).user is None,
            final(self).otp is None,
            final(self).last_error is Some,
            final(self).last_error->0.status_code == STATUS_WRONG_CODE,
            final(self).last_error->0.message == error.message,
            final(self).user_info_url == old(self).user_info_url,
            final(self).login_url == old(self).login_url,
            final(self).otp_login_url == old(self).otp_login_url,
    {
        self.otp = None;
        self.user = None;
        self.last_error = Some(
            AuthenticationError { status_code: STATUS_WRONG_CODE, message: error.message },
        );
    }

    /// Takes note of an accepted one-time code: no failure is kept and no sign-in is
    /// under way; the user is to be fetched next.
    pub fn otp_login_success(&mut self)
        ensures
            final(self).last_error is None,
            final(self).otp is None,
            final(self).user == old(self).user,
            final(self).user_info_url == old(self).user_info_url,
            final(self).login_url == old(self).login_url,
            final(self).otp_login_url == old(self).otp_login_url,
    {
        self.last_error = None;
        self.otp = None;
    }

    /// Gives a sign-in up: nothing is kept of it.
    pub fn otp_login_cancel(&mut self)
        ensures
            final(self).last_error is None,
            final(self).user is None,
            final(self).otp is None,
            final(self).user_info_url == old(self).user_info_url,
            final(self).login_url == old(self).login_url,
            final(self).otp_login_url == old(self).otp_login_url,
    {
        self.last_error = None;
        self.user = None;
        self.otp = None;
    }

    /// Signs out: nobody is signed in and no failure is kept.
    pub fn logout(&mut self)
        ensures
            final(self).user is None,
            final(self).last_error is None,
            final(self).otp == old(self).otp,
            final(self).user_info_url == old(self).user_info_url,
            final(self).login_url == old(self).login_url,
            final(self).otp_login_url == old(self).otp_login_url,
    {
        self.user = None;
        self.last_error = None;
    }

    /// Takes note of the answer to a request for the user: the user where the service
    /// gave one that can be read, else nobody.
    pub fn user_info_received(&mut self, user: Option<User>)
        ensures
            final(self).user == user,
            final(self).last_error == old(self).last_error,
            final(self).otp == old(self).otp,
            final(self).user_info_url == old(self).user_info_url,
            final(self).login_url == old(self).login_url,
            final(self).otp_login_url == old(self).otp_login_url,
    {
        self.user = user;
    }

    /// Takes note of how a sign-in request ended. An accepted sign-in succeeds, and says
    /// whether the user is to be fetched next. Any other end is a failure, which is kept
    /// and returned: under the status of an unreadable answer, the service's own
    /// status, or the status of a service that cannot be reached.
    pub fn login(&mut self, outcome: LoginOutcome) -> (done: Result<bool, AuthenticationError>)
        ensures
            match outcome {
                LoginOutcome::Accepted(answer) => done == Ok::<bool, AuthenticationError>(
                    !answer.otp_required,
                ) && final(self).last_error is None,
                LoginOutcome::Unreadable(words) => done == Err::<bool, AuthenticationError>(
                    AuthenticationError { status_code: STATUS_UNREADABLE, message: words },
                ),
                LoginOutcome::Refused(status, words) => done == Err::<bool, AuthenticationError>(
                    AuthenticationError { status_code: status, message: words },
                ),
                LoginOutcome::Unreachable(words) => done == Err::<bool, AuthenticationError>(
                    AuthenticationError { status_code: STATUS_UNREACHABLE, message: words },
                ),
            },
            done is Err ==> final(self).user is None && final(self).last_error == Some(
                done->Err_0,
            ),
    {
        let error = match outcome {
            LoginOutcome::Accepted(answer) => {
                return Ok(self.login_success(answer));
            },
            LoginOutcome::Unreadable(words) => AuthenticationError::new(STATUS_UNREADABLE, words),
            LoginOutcome::Refused(status, words) => AuthenticationError::new(status, words),
            LoginOutcome::Unreachable(words) => AuthenticationError::new(
                STATUS_UNREACHABLE,
                words,
            ),
        };
        self.login_failed(error.duplicate());
        Err(error)
    }

    /// Takes note of how a request with a one-time code ended. An accepted code
    /// succeeds; the user is to be fetched next. Any other end is a failure, which is
    /// returned, and kept under the status of a wrong code.
    pub fn login_otp(&mut self, outcome: OtpOutcome) -> (done: Result<(), AuthenticationError>)
        ensures
            match outcome {
                OtpOutcome::Accepted => done is Ok && final(self).last_error is None && final(self).otp is None,
                OtpOutcome::Refused(status, words) => done == Err::<(), AuthenticationError>(
                    AuthenticationError { status_code: status, message: words },
                ),
                OtpOutcome::Unreachable(words) => done == Err::<(), AuthenticationError>(
                    AuthenticationError { status_code: STATUS_UNREACHABLE, message: words },
                ),
            },
            done is Err ==> final(self).user is None && final(self).otp is None && final(self).last_error is Some && final(self).last_error->0.status_code == STATUS_WRONG_CODE,
    {
        let error = match outcome {
            OtpOutcome::Accepted => {
                self.otp_login_success();
                return Ok(());
            },
            OtpOutcome::Refused(status, words) => AuthenticationError::new(status, words),
            OtpOutcome::Unreachable(words) => AuthenticationError::new(STATUS_UNREACHABLE, words),
        };
        self.otp_login_failed(error.duplicate());
        Err(error)
    }
}

} // verus!
