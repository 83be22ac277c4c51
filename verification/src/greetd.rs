//! The session daemon's side of a conversation: its messages, and how its
//! failures are classified and worded.

use crate::text::{
    blank, chars_of, contains_text, lowercase, occurs, same_chars, string_of, to_lowercase, trim,
    trimmed,
};
use vstd::prelude::*;

verus! {

/// What kind of line the authentication stack sent.
#[derive(Debug, PartialEq, Eq, Copy, Clone, Structural)]
pub enum AuthMessageType {
    /// A prompt whose answer may be shown while it is typed.
    Visible,
    /// A prompt whose answer must not be shown or logged.
    Secret,
    /// Information; no answer is expected.
    Info,
    /// An error text; no answer is expected.
    Error,
}

impl AuthMessageType {
    /// Whether a message of this kind asks for an answer.
    pub open spec fn asks(self) -> bool {
        self == AuthMessageType::Visible || self == AuthMessageType::Secret
    }

    /// Whether a message of this kind asks for an answer.
    pub fn is_prompt(self) -> (b: bool)
        ensures
            b == self.asks(),
    {
        match self {
            AuthMessageType::Visible | AuthMessageType::Secret => true,
            AuthMessageType::Info | AuthMessageType::Error => false,
        }
    }
}

/// The codes under which an authentication failure is reported.
#[derive(Debug, PartialEq, Eq, Clone, Copy, Structural)]
pub enum AuthErrorCode {
    AuthFailed,
    AccountLocked,
    PasswordExpired,
    PamError,
}

impl AuthErrorCode {
    /// The code as it is written on the wire.
    pub open spec fn name(self) -> Seq<char> {
        match self {
            AuthErrorCode::AuthFailed => "auth_failed"@,
            AuthErrorCode::AccountLocked => "account_locked"@,
            AuthErrorCode::PasswordExpired => "password_expired"@,
            AuthErrorCode::PamError => "pam_error"@,
        }
    }

    pub fn as_str(self) -> (s: &'static str)
        ensures
            s@ == self.name(),
    {
        match self {
            AuthErrorCode::AuthFailed => "auth_failed",
            AuthErrorCode::AccountLocked => "account_locked",
            AuthErrorCode::PasswordExpired => "password_expired",
            AuthErrorCode::PamError => "pam_error",
        }
    }
}

/// Why the daemon refused the credentials.
#[derive(Debug, PartialEq, Eq, Clone, Copy, Structural)]
pub enum AuthFailureKind {
    AuthErr,
    AccountLocked,
    Expired,
}

impl AuthFailureKind {
    /// The code a failure of this kind is reported under.
    pub open spec fn code_of(self) -> AuthErrorCode {
        match self {
            AuthFailureKind::AuthErr => AuthErrorCode::AuthFailed,
            AuthFailureKind::AccountLocked => AuthErrorCode::AccountLocked,
            AuthFailureKind::Expired => AuthErrorCode::PasswordExpired,
        }
    }

    pub fn code(self) -> (c: AuthErrorCode)
        ensures
            c == self.code_of(),
    {
        match self {
            AuthFailureKind::AuthErr => AuthErrorCode::AuthFailed,
            AuthFailureKind::AccountLocked => AuthErrorCode::AccountLocked,
            AuthFailureKind::Expired => AuthErrorCode::PasswordExpired,
        }
    }

    /// The fixed wording for a failure of this kind.
    pub open spec fn headline(self) -> Seq<char> {
        match self {
            AuthFailureKind::AuthErr => "Authentication failed"@,
            AuthFailureKind::AccountLocked => "Account locked or disabled"@,
            AuthFailureKind::Expired => "Account or password expired"@,
        }
    }
}

// ---------------------------------------------------------------------------
// Terminal errors
// ---------------------------------------------------------------------------

/// What an [`AuthError`] holds, as plain values.
pub struct AuthErrorView {
    pub code: AuthErrorCode,
    pub message: Seq<char>,
    /// Soft failures return the greeter to `idle`; hard ones move it to `error`.
    pub return_to_idle: bool,
}

/// How a conversation ended when it did not succeed.
#[derive(Debug)]
pub struct AuthError {
    code: AuthErrorCode,
    message: String,
    return_to_idle: bool,
}

impl View for AuthError {
    type V = AuthErrorView;

    closed spec fn view(&self) -> AuthErrorView {
        AuthErrorView {
            code: self.code,
            message: self.message@,
            return_to_idle: self.return_to_idle,
        }
    }
}

/// The message of a classified failure: the headline of its kind and, where
/// the detail is not blank, the trimmed detail in parentheses.
pub open spec fn failure_message(kind: AuthFailureKind, detail: Seq<char>) -> Seq<char> {
    if blank(detail) {
        kind.headline()
    } else {
        kind.headline() + " ("@ + trimmed(detail) + ")"@
    }
}

/// The hard failure reported for refused credentials.
pub open spec fn auth_failure_of(kind: AuthFailureKind, detail: Seq<char>) -> AuthErrorView {
    AuthErrorView {
        code: kind.code_of(),
        message: failure_message(kind, detail),
        return_to_idle: false,
    }
}

/// The hard failure reported for anything else that goes wrong.
pub open spec fn pam_error_of(message: Seq<char>) -> AuthErrorView {
    AuthErrorView { code: AuthErrorCode::PamError, message, return_to_idle: false }
}

/// The soft failure reported when the user cancels.
pub open spec fn cancelled_error() -> AuthErrorView {
    AuthErrorView {
        code: AuthErrorCode::PamError,
        message: "authentication cancelled"@,
        return_to_idle: true,
    }
}

/// The soft failure reported when a prompt is not answered in time.
pub open spec fn timeout_error() -> AuthErrorView {
    AuthErrorView {
        code: AuthErrorCode::PamError,
        message: "authentication timed out"@,
        return_to_idle: true,
    }
}

impl AuthError {
    pub fn auth_failure(kind: AuthFailureKind, detail: &str) -> (e: Self)
        ensures
            e@ == auth_failure_of(kind, detail@),
    {
        AuthError { code: kind.code(), message: format_auth_error(kind, detail), return_to_idle: false }
    }

    pub fn pam_error(message: &str) -> (e: Self)
        ensures
            e@ == pam_error_of(message@),
    {
        AuthError {
            code: AuthErrorCode::PamError,
            message: message.to_owned(),
            return_to_idle: false,
        }
    }

    pub fn cancelled() -> (e: Self)
        ensures
            e@ == cancelled_error(),
    {
        AuthError {
            code: AuthErrorCode::PamError,
            message: "authentication cancelled".to_owned(),
            return_to_idle: true,
        }
    }

    pub fn timeout() -> (e: Self)
        ensures
            e@ == timeout_error(),
    {
        AuthError {
            code: AuthErrorCode::PamError,
            message: "authentication timed out".to_owned(),
            return_to_idle: true,
        }
    }

    pub fn code(&self) -> (c: AuthErrorCode)
        ensures
            c == self@.code,
    {
        self.code
    }

    pub fn message(&self) -> (m: &str)
        ensures
            m@ == self@.message,
    {
        self.message.as_str()
    }

    pub fn return_to_idle(&self) -> (b: bool)
        ensures
            b == self@.return_to_idle,
    {
        self.return_to_idle
    }

    /// The message, as an owned text.
    pub fn into_message(self) -> (m: String)
        ensures
            m@ == self@.message,
    {
        self.message
    }
}

/// Words a classified failure.
pub fn format_auth_error(kind: AuthFailureKind, detail: &str) -> (m: String)
    ensures
        m@ == failure_message(kind, detail@),
{
    let suffix = trim(detail);
    let headline = match kind {
        AuthFailureKind::AuthErr => "Authentication failed",
        AuthFailureKind::AccountLocked => "Account locked or disabled",
        AuthFailureKind::Expired => "Account or password expired",
    };
    let mut m = headline.to_owned();
    if suffix.as_str().is_empty() {
        m
    } else {
        m.append(" (");
        m.append(suffix.as_str());
        m.append(")");
        m
    }
}

// ---------------------------------------------------------------------------
// Classification
// ---------------------------------------------------------------------------

/// The text a failure is classified by: description and detail, with one
/// space between them.
pub open spec fn joined(description: Seq<char>, detail: Seq<char>) -> Seq<char> {
    description + seq![' '] + detail
}

/// The characters that words are made of: ASCII letters, digits and `_`.
pub open spec fn is_token_char(c: char) -> bool {
    ('a' <= c && c <= 'z') || ('A' <= c && c <= 'Z') || ('0' <= c && c <= '9') || c == '_'
}

fn token_char(c: char) -> (b: bool)
    ensures
        b == is_token_char(c),
{
    ('a' <= c && c <= 'z') || ('A' <= c && c <= 'Z') || ('0' <= c && c <= '9') || c == '_'
}

/// Where the run of word characters that begins at `from` ends.
pub open spec fn token_end(s: Seq<char>, from: int) -> int
    decreases s.len() - from,
{
    if from < 0 || from >= s.len() || !is_token_char(s[from]) {
        from
    } else {
        token_end(s, from + 1)
    }
}

/// A word begins at `at`, and begins with `PAM_`.
pub open spec fn pam_token_at(s: Seq<char>, at: int) -> bool {
    &&& 0 <= at
    &&& at + 4 <= s.len()
    &&& (at == 0 || !is_token_char(s[at - 1]))
    &&& s[at] == 'P'
    &&& s[at + 1] == 'A'
    &&& s[at + 2] == 'M'
    &&& s[at + 3] == '_'
}

/// The first word at or after `from` that begins with `PAM_`. Words are the
/// maximal runs of ASCII letters, digits and underscores.
pub open spec fn pam_token_from(s: Seq<char>, from: int) -> Option<Seq<char>>
    decreases s.len() - from,
{
    if from < 0 || from + 4 > s.len() {
        None
    } else if pam_token_at(s, from) {
        Some(s.subrange(from, token_end(s, from)))
    } else {
        pam_token_from(s, from + 1)
    }
}

/// The first word of `s` that begins with `PAM_`.
pub open spec fn first_pam_token(s: Seq<char>) -> Option<Seq<char>> {
    pam_token_from(s, 0)
}

/// The kind that a PAM result name stands for, if it is one of the known names.
pub open spec fn token_kind(token: Seq<char>) -> Option<AuthFailureKind> {
    if token == "PAM_ACCT_EXPIRED"@ || token == "PAM_CRED_EXPIRED"@ || token
        == "PAM_AUTHTOK_EXPIRED"@ || token == "PAM_NEW_AUTHTOK_REQD"@ {
        Some(AuthFailureKind::Expired)
    } else if token == "PAM_MAXTRIES"@ || token == "PAM_PERM_DENIED"@ {
        Some(AuthFailureKind::AccountLocked)
    } else if token == "PAM_AUTH_ERR"@ || token == "PAM_USER_UNKNOWN"@ || token
        == "PAM_CRED_INSUFFICIENT"@ {
        Some(AuthFailureKind::AuthErr)
    } else {
        None
    }
}

/// The kind that the wording of a lowercased text points to.
pub open spec fn phrase_kind(lowered: Seq<char>) -> AuthFailureKind {
    if occurs(lowered, "account locked"@) || occurs(lowered, "too many failed"@) || occurs(
        lowered,
        "maximum number of retries"@,
    ) || occurs(lowered, "faillock"@) {
        AuthFailureKind::AccountLocked
    } else if occurs(lowered, "password expired"@) || occurs(
        lowered,
        "authentication token is no longer valid"@,
    ) || occurs(lowered, "new password required"@) || occurs(lowered, "password change required"@) {
        AuthFailureKind::Expired
    } else {
        AuthFailureKind::AuthErr
    }
}

/// The kind of a failure, given its text and the lowercase form of that text:
/// a known PAM result name in first place decides, else the wording does.
pub open spec fn kind_of(text: Seq<char>, lowered: Seq<char>) -> AuthFailureKind {
    match first_pam_token(text) {
        Some(token) => match token_kind(token) {
            Some(kind) => kind,
            None => phrase_kind(lowered),
        },
        None => phrase_kind(lowered),
    }
}

/// The kind of the failure that the daemon described by `description`, after
/// `detail` was the last thing the authentication stack said.
pub open spec fn failure_kind(description: Seq<char>, detail: Seq<char>) -> AuthFailureKind {
    kind_of(joined(description, detail), lowercase(joined(description, detail)))
}

/// Finds the first word that begins with `PAM_`.
pub fn extract_pam_error_token(haystack: &str) -> (token: Option<String>)
    ensures
        match token {
            Some(t) => first_pam_token(haystack@) == Some(t@),
            None => first_pam_token(haystack@) is None,
        },
{
    let v = chars_of(haystack);
    let n = v.len();
    let mut at: usize = 0;
    while at < n && n - at >= 4
        invariant
            at <= n,
            n == v.len(),
            v@ == haystack@,
            first_pam_token(v@) == pam_token_from(v@, at as int),
        decreases n - at,
    {
        let starts = at == 0 || !token_char(v[at - 1]);
        if starts && v[at] == 'P' && v[at + 1] == 'A' && v[at + 2] == 'M' && v[at + 3] == '_' {
            let mut end: usize = at;
            while end < n && token_char(v[end])
                invariant
                    at <= end <= n,
                    n == v.len(),
                    token_end(v@, at as int) == token_end(v@, end as int),
                decreases n - end,
            {
                end += 1;
            }
            return Some(string_of(&v, at, end));
        }
        at += 1;
    }
    None
}

/// The kind that a PAM result name stands for.
pub fn map_pam_token(token: &str) -> (kind: Option<AuthFailureKind>)
    ensures
        kind == token_kind(token@),
{
    let t = chars_of(token);
    if is_text(&t, "PAM_ACCT_EXPIRED") || is_text(&t, "PAM_CRED_EXPIRED") || is_text(
        &t,
        "PAM_AUTHTOK_EXPIRED",
    ) || is_text(&t, "PAM_NEW_AUTHTOK_REQD") {
        Some(AuthFailureKind::Expired)
    } else if is_text(&t, "PAM_MAXTRIES") || is_text(&t, "PAM_PERM_DENIED") {
        Some(AuthFailureKind::AccountLocked)
    } else if is_text(&t, "PAM_AUTH_ERR") || is_text(&t, "PAM_USER_UNKNOWN") || is_text(
        &t,
        "PAM_CRED_INSUFFICIENT",
    ) {
        Some(AuthFailureKind::AuthErr)
    } else {
        None
    }
}

fn is_text(v: &Vec<char>, s: &str) -> (r: bool)
    ensures
        r == (v@ == s@),
{
    let w = chars_of(s);
    same_chars(v, &w)
}

/// Classifies a failure from its text and the lowercase form of that text.
pub fn classify_text(text: &str, lowered: &str) -> (kind: AuthFailureKind)
    ensures
        kind == kind_of(text@, lowered@),
{
    if let Some(token) = extract_pam_error_token(text) {
        if let Some(kind) = map_pam_token(token.as_str()) {
            return kind;
        }
    }
    let l = chars_of(lowered);
    if contains_text(&l, "account locked") || contains_text(&l, "too many failed") || contains_text(
        &l,
        "maximum number of retries",
    ) || contains_text(&l, "faillock") {
        return AuthFailureKind::AccountLocked;
    }
    if contains_text(&l, "password expired") || contains_text(
        &l,
        "authentication token is no longer valid",
    ) || contains_text(&l, "new password required") || contains_text(
        &l,
        "password change required",
    ) {
        return AuthFailureKind::Expired;
    }
    AuthFailureKind::AuthErr
}

/// Classifies the failure that the daemon described by `description`, after
/// `detail` was the last thing the authentication stack said.
pub fn classify_auth_failure(description: &str, detail: &str) -> (kind: AuthFailureKind)
    ensures
        kind == failure_kind(description@, detail@),
{
    let mut text = description.to_owned();
    text.append(" ");
    text.append(detail);
    proof {
        reveal_strlit(" ");
        assert(" "@ == seq![' ']);
    }
    let lowered = to_lowercase(text.as_str());
    classify_text(text.as_str(), lowered.as_str())
}

/// Classifying is a function of the two texts: the same description and
/// detail always give the same code and the same message.
pub proof fn lemma_classification_is_stable(
    description: Seq<char>,
    detail: Seq<char>,
    first: AuthErrorView,
    second: AuthErrorView,
)
    requires
        first == auth_failure_of(failure_kind(description, detail), detail),
        second == auth_failure_of(failure_kind(description, detail), detail),
    ensures
        first.code == second.code,
        first.message == second.message,
{
}

} // verus!
