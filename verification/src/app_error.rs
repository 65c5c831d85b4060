//! Errors as the app records and shows them: a kind, the operation that
//! failed, its message, optional details and when it happened.
use vstd::prelude::*;
use crate::text::{append_chars, chars_of, contains, contains_vec, lit, lowercase, lowercase_vec, string_of};

verus! {

/// What kind of failure an error is.
#[derive(Debug, Clone, Copy, PartialEq, Eq, Structural)]
pub enum AppErrorKind {
    Network,
    Parse,
    Database,
    Auth,
    Upload,
    Validation,
    Internal,
    External,
    Unknown,
}

impl AppErrorKind {
    /// The kind's display label.
    pub open spec fn spec_label(self) -> Seq<char> {
        match self {
            AppErrorKind::Network => "Network"@,
            AppErrorKind::Parse => "Parse"@,
            AppErrorKind::Database => "Database"@,
            AppErrorKind::Auth => "Authentication"@,
            AppErrorKind::Upload => "Upload"@,
            AppErrorKind::Validation => "Validation"@,
            AppErrorKind::Internal => "Internal"@,
            AppErrorKind::External => "External"@,
            AppErrorKind::Unknown => "Unknown"@,
        }
    }

    /// The kind's display label.
    pub fn label(self) -> (res: &'static str)
        ensures
            res@ == self.spec_label(),
    {
        match self {
            AppErrorKind::Network => "Network",
            AppErrorKind::Parse => "Parse",
            AppErrorKind::Database => "Database",
            AppErrorKind::Auth => "Authentication",
            AppErrorKind::Upload => "Upload",
            AppErrorKind::Validation => "Validation",
            AppErrorKind::Internal => "Internal",
            AppErrorKind::External => "External",
            AppErrorKind::Unknown => "Unknown",
        }
    }
}

/// A recorded failure.
#[derive(Debug, Clone)]
pub struct AppError {
    pub kind: AppErrorKind,
    pub operation: String,
    pub message: String,
    pub details: Option<String>,
    pub recorded_at: String,
}

/// A non-empty run of ASCII digits.
pub open spec fn is_decimal_digits(s: Seq<char>) -> bool {
    s.len() > 0 && forall|i: int| 0 <= i < s.len() ==> '0' <= #[trigger] s[i] <= '9'
}

/// The current Unix time in whole seconds, in decimal, or `0` when the clock
/// is before the epoch: `SystemTime::now`, `duration_since(UNIX_EPOCH)` and
/// `u64`'s decimal printing. The result is a run of digits; which number it
/// is, is the clock's and is not stated.
#[verifier::external_body]
pub(crate) fn unix_seconds_now() -> (res: String)
    ensures
        is_decimal_digits(res@),
{
    std::time::SystemTime::now()
        .duration_since(std::time::UNIX_EPOCH)
        .map(|duration| duration.as_secs().to_string())
        .unwrap_or_else(|_| "0".to_owned())
}

/// Some keyword of the list occurs in `text`.
pub open spec fn mentions_any(text: Seq<char>, words: Seq<Seq<char>>) -> bool {
    exists|k: int| 0 <= k < words.len() && contains(text, #[trigger] words[k])
}

/// Words that mark an authentication failure.
pub open spec fn auth_words() -> Seq<Seq<char>> {
    seq!["unauthorized"@, "forbidden"@, "invalid credentials"@, "api key"@, "password"@, "token"@]
}

/// Words that mark an upload failure.
pub open spec fn upload_words() -> Seq<Seq<char>> {
    seq!["upload"@, "lesson"@, "lingq"@]
}

/// Words that mark a network failure.
pub open spec fn network_words() -> Seq<Seq<char>> {
    seq!["timeout"@, "timed out"@, "connection"@, "dns"@, "http"@, "429"@, "503"@]
}

/// Words that mark a database failure.
pub open spec fn database_words() -> Seq<Seq<char>> {
    seq!["sqlite"@, "database"@, "sql"@, "wal"@]
}

/// Words that mark a parse failure.
pub open spec fn parse_words() -> Seq<Seq<char>> {
    seq!["parse"@, "selector"@, "html"@, "missing title"@]
}

/// Words that mark a validation failure.
pub open spec fn validation_words() -> Seq<Seq<char>> {
    seq!["must"@, "required"@, "invalid"@, "not found"@]
}

/// The kind a message suggests, by the first matching group of keywords in
/// its lower-case form: authentication, upload, network, database, parse,
/// validation; otherwise unknown.
pub open spec fn spec_classify_kind(message: Seq<char>) -> AppErrorKind {
    let lower = lowercase(message);
    if mentions_any(lower, auth_words()) {
        AppErrorKind::Auth
    } else if mentions_any(lower, upload_words()) {
        AppErrorKind::Upload
    } else if mentions_any(lower, network_words()) {
        AppErrorKind::Network
    } else if mentions_any(lower, database_words()) {
        AppErrorKind::Database
    } else if mentions_any(lower, parse_words()) {
        AppErrorKind::Parse
    } else if mentions_any(lower, validation_words()) {
        AppErrorKind::Validation
    } else {
        AppErrorKind::Unknown
    }
}

fn mentions_any_vec(text: &Vec<char>, words: &Vec<Vec<char>>) -> (res: bool)
    ensures
        res == mentions_any(text@, crate::text::views(words@)),
{
    let r = crate::text::contains_any(text, words);
    assert(r == mentions_any(text@, crate::text::views(words@))) by {
        if r {
            let k = choose|k: int| 0 <= k < words@.len() && contains(text@, #[trigger] words@[k]@);
            assert(crate::text::views(words@)[k] == words@[k]@);
        } else {
            assert forall|k: int| 0 <= k < crate::text::views(words@).len() implies !contains(text@, #[trigger] crate::text::views(words@)[k]) by {
                assert(crate::text::views(words@)[k] == words@[k]@);
            }
        }
    }
    r
}

/// The kind a message suggests.
pub fn classify_kind(message: &str) -> (res: AppErrorKind)
    ensures
        res == spec_classify_kind(message@),
{
    let lower = lowercase_vec(&chars_of(message));
    let auth: Vec<Vec<char>> = vec![lit("unauthorized"), lit("forbidden"), lit("invalid credentials"), lit("api key"), lit("password"), lit("token")];
    assert(crate::text::views(auth@) =~= auth_words());
    if mentions_any_vec(&lower, &auth) {
        return AppErrorKind::Auth;
    }
    let upload: Vec<Vec<char>> = vec![lit("upload"), lit("lesson"), lit("lingq")];
    assert(crate::text::views(upload@) =~= upload_words());
    if mentions_any_vec(&lower, &upload) {
        return AppErrorKind::Upload;
    }
    let network: Vec<Vec<char>> = vec![lit("timeout"), lit("timed out"), lit("connection"), lit("dns"), lit("http"), lit("429"), lit("503")];
    assert(crate::text::views(network@) =~= network_words());
    if mentions_any_vec(&lower, &network) {
        return AppErrorKind::Network;
    }
    let database: Vec<Vec<char>> = vec![lit("sqlite"), lit("database"), lit("sql"), lit("wal")];
    assert(crate::text::views(database@) =~= database_words());
    if mentions_any_vec(&lower, &database) {
        return AppErrorKind::Database;
    }
    let parse: Vec<Vec<char>> = vec![lit("parse"), lit("selector"), lit("html"), lit("missing title")];
    assert(crate::text::views(parse@) =~= parse_words());
    if mentions_any_vec(&lower, &parse) {
        return AppErrorKind::Parse;
    }
    let validation: Vec<Vec<char>> = vec![lit("must"), lit("required"), lit("invalid"), lit("not found")];
    assert(crate::text::views(validation@) =~= validation_words());
    if mentions_any_vec(&lower, &validation) {
        return AppErrorKind::Validation;
    }
    AppErrorKind::Unknown
}

impl AppError {
    /// A new error of the given kind, stamped with the current time and
    /// without details.
    pub fn new(kind: AppErrorKind, operation: &str, message: &str) -> (res: AppError)
        ensures
            res.kind == kind,
            res.operation@ == operation@,
            res.message@ == message@,
            res.details is None,
            is_decimal_digits(res.recorded_at@),
    {
        AppError {
            kind,
            operation: string_of(&chars_of(operation)),
            message: string_of(&chars_of(message)),
            details: None,
            recorded_at: unix_seconds_now(),
        }
    }

    /// The same error with `details` attached.
    pub fn with_details(self, details: &str) -> (res: AppError)
        ensures
            res.kind == self.kind,
            res.operation == self.operation,
            res.message == self.message,
            res.recorded_at == self.recorded_at,
            res.details matches Some(d) && d@ == details@,
    {
        AppError { details: Some(string_of(&chars_of(details))), ..self }
    }

    /// A new error whose kind is what its message suggests.
    pub fn classify(operation: &str, message: &str) -> (res: AppError)
        ensures
            res.kind == spec_classify_kind(message@),
            res.operation@ == operation@,
            res.message@ == message@,
            res.details is None,
            is_decimal_digits(res.recorded_at@),
    {
        let kind = classify_kind(message);
        AppError::new(kind, operation, message)
    }

    /// The error of a background task that failed internally: operation
    /// `"<kind> task"`, details `"Task label: <label>"`.
    pub fn internal_task(task_kind: &str, task_label: &str, message: &str) -> (res: AppError)
        ensures
            res.kind == AppErrorKind::Internal,
            res.operation@ == task_kind@ + " task"@,
            res.message@ == message@,
            res.details matches Some(d) && d@ == "Task label: "@ + task_label@,
            is_decimal_digits(res.recorded_at@),
    {
        let mut operation = chars_of(task_kind);
        append_chars(&mut operation, &lit(" task"));
        let mut details = lit("Task label: ");
        append_chars(&mut details, &chars_of(task_label));
        let op = string_of(&operation);
        let d = string_of(&details);
        AppError::new(AppErrorKind::Internal, op.as_str(), message).with_details(d.as_str())
    }

    /// The notice shown for this error: `"<operation> failed: <message>"`.
    pub fn notice_message(&self) -> (res: String)
        ensures
            res@ == self.operation@ + " failed: "@ + self.message@,
    {
        let mut out = chars_of(self.operation.as_str());
        append_chars(&mut out, &lit(" failed: "));
        append_chars(&mut out, &chars_of(self.message.as_str()));
        string_of(&out)
    }
}

} // verus!
