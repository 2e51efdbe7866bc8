//! The single application error type.
//!
//! An error is categorised by what the caller can do about it
//! ([`AppErrorKind`]), carries a client-safe message, and optionally names the
//! failing operation, some diagnostic key/value context and the rendered
//! underlying cause. [`AppError::display_message`] is the client-safe text
//! (internal errors are masked); [`AppError::diagnostic`] is the full tree.

use vstd::prelude::*;

verus! {

/// What the caller can do about an error: categorised by recovery, not origin.
#[derive(Clone, Copy, Debug, PartialEq, Eq, Structural)]
pub enum AppErrorKind {
    /// Bad data supplied by the caller (validation, missing fields).
    InvalidInput,
    /// Requested entity does not exist.
    NotFound,
    /// State precondition violated (already exists / already processed).
    Conflict,
    /// Business rule violated that is not a simple state conflict.
    BusinessRuleViolation,
    /// Unexpected infrastructure or I/O failure the caller cannot fix.
    Internal,
    /// Caller is not authenticated or the token is invalid.
    Unauthorized,
    /// Caller is authenticated but lacks permission for the action.
    Forbidden,
    /// Downstream dependency is temporarily unavailable.
    Unavailable,
    /// Caller has exceeded the allowed request rate.
    RateLimited,
}

/// The variant name of a kind, as its `Debug` rendering spells it.
pub open spec fn kind_name(kind: AppErrorKind) -> Seq<char> {
    match kind {
        AppErrorKind::InvalidInput => "InvalidInput"@,
        AppErrorKind::NotFound => "NotFound"@,
        AppErrorKind::Conflict => "Conflict"@,
        AppErrorKind::BusinessRuleViolation => "BusinessRuleViolation"@,
        AppErrorKind::Internal => "Internal"@,
        AppErrorKind::Unauthorized => "Unauthorized"@,
        AppErrorKind::Forbidden => "Forbidden"@,
        AppErrorKind::Unavailable => "Unavailable"@,
        AppErrorKind::RateLimited => "RateLimited"@,
    }
}

/// The application error.
#[derive(Debug)]
pub struct AppError {
    kind: AppErrorKind,
    message: String,
    operation: Option<String>,
    context: Vec<(String, String)>,
    source: Option<String>,
}

/// The abstract content of an [`AppError`].
pub struct AppErrorView {
    pub kind: AppErrorKind,
    pub message: Seq<char>,
    pub operation: Option<Seq<char>>,
    pub context: Seq<(Seq<char>, Seq<char>)>,
    pub source: Option<Seq<char>>,
}

impl View for AppError {
    type V = AppErrorView;

    closed spec fn view(&self) -> AppErrorView {
        AppErrorView {
            kind: self.kind,
            message: self.message@,
            operation: match self.operation {
                Some(op) => Some(op@),
                None => None,
            },
            context: self.context@.map_values(|kv: (String, String)| (kv.0@, kv.1@)),
            source: match self.source {
                Some(src) => Some(src@),
                None => None,
            },
        }
    }
}

/// The text that a client may be shown for an error: internal errors are masked.
pub open spec fn display_text(e: AppErrorView) -> Seq<char> {
    if e.kind == AppErrorKind::Internal {
        "Internal error"@
    } else {
        e.message
    }
}

/// The rendered ` [key=value]` suffixes of a context list.
pub open spec fn context_text(ctx: Seq<(Seq<char>, Seq<char>)>) -> Seq<char>
    decreases ctx.len(),
{
    if ctx.len() == 0 {
        Seq::empty()
    } else {
        context_text(ctx.drop_last()) + " ["@ + ctx.last().0 + "="@ + ctx.last().1 + "]"@
    }
}

/// The full diagnostic rendering: kind, message, operation, context and cause.
pub open spec fn diagnostic_text(e: AppErrorView) -> Seq<char> {
    kind_name(e.kind) + ": "@ + e.message + match e.operation {
        Some(op) => " [operation="@ + op + "]"@,
        None => Seq::empty(),
    } + context_text(e.context) + match e.source {
        Some(src) => "\n  caused by: "@ + src,
        None => Seq::empty(),
    }
}

impl AppError {
    /// A fresh error of `kind` with `message` and nothing else attached.
    pub fn new(kind: AppErrorKind, message: &str) -> (e: AppError)
        ensures
            e@ == Self::fresh(kind, message@),
    {
        let e = AppError {
            kind,
            message: message.to_string(),
            operation: None,
            context: Vec::new(),
            source: None,
        };
        assert(e@.context =~= Seq::<(Seq<char>, Seq<char>)>::empty());
        e
    }

    /// Bad data supplied by the caller.
    pub fn invalid_input(message: &str) -> (e: AppError)
        ensures
            e@ == Self::fresh(AppErrorKind::InvalidInput, message@),
    {
        Self::new(AppErrorKind::InvalidInput, message)
    }

    /// The requested entity does not exist.
    pub fn not_found(message: &str) -> (e: AppError)
        ensures
            e@ == Self::fresh(AppErrorKind::NotFound, message@),
    {
        Self::new(AppErrorKind::NotFound, message)
    }

    /// A state precondition was violated.
    pub fn conflict(message: &str) -> (e: AppError)
        ensures
            e@ == Self::fresh(AppErrorKind::Conflict, message@),
    {
        Self::new(AppErrorKind::Conflict, message)
    }

    /// A business rule was violated.
    pub fn business_rule_violation(message: &str) -> (e: AppError)
        ensures
            e@ == Self::fresh(AppErrorKind::BusinessRuleViolation, message@),
    {
        Self::new(AppErrorKind::BusinessRuleViolation, message)
    }

    /// An unexpected internal failure.
    pub fn internal(message: &str) -> (e: AppError)
        ensures
            e@ == Self::fresh(AppErrorKind::Internal, message@),
    {
        Self::new(AppErrorKind::Internal, message)
    }

    /// The caller is not authenticated.
    pub fn unauthorized(message: &str) -> (e: AppError)
        ensures
            e@ == Self::fresh(AppErrorKind::Unauthorized, message@),
    {
        Self::new(AppErrorKind::Unauthorized, message)
    }

    /// The caller lacks permission.
    pub fn forbidden(message: &str) -> (e: AppError)
        ensures
            e@ == Self::fresh(AppErrorKind::Forbidden, message@),
    {
        Self::new(AppErrorKind::Forbidden, message)
    }

    /// A dependency is temporarily unavailable.
    pub fn unavailable(message: &str) -> (e: AppError)
        ensures
            e@ == Self::fresh(AppErrorKind::Unavailable, message@),
    {
        Self::new(AppErrorKind::Unavailable, message)
    }

    /// The caller exceeded the allowed request rate.
    pub fn rate_limited(message: &str) -> (e: AppError)
        ensures
            e@ == Self::fresh(AppErrorKind::RateLimited, message@),
    {
        Self::new(AppErrorKind::RateLimited, message)
    }

    /// The abstract value of a freshly built error.
    pub open spec fn fresh(kind: AppErrorKind, message: Seq<char>) -> AppErrorView {
        AppErrorView {
            kind,
            message,
            operation: None,
            context: Seq::empty(),
            source: None,
        }
    }

    /// The error's kind.
    pub fn kind(&self) -> (k: AppErrorKind)
        ensures
            k == self@.kind,
    {
        self.kind
    }

    /// Name the operation that failed (replacing any earlier one).
    pub fn with_operation(self, operation: &str) -> (e: AppError)
        ensures
            e@ == (AppErrorView { operation: Some(operation@), ..self@ }),
    {
        let mut e = self;
        e.operation = Some(operation.to_string());
        e
    }

    /// Attach a named input that helps locate the failing record.
    pub fn with_context(self, key: &str, value: &str) -> (e: AppError)
        ensures
            e@ == (AppErrorView { context: self@.context.push((key@, value@)), ..self@ }),
    {
        let mut e = self;
        let ghost before = e.context@;
        e.context.push((key.to_string(), value.to_string()));
        assert(e@.context =~= self@.context.push((key@, value@)));
        e
    }

    /// Attach the rendered underlying cause.
    pub fn with_source(self, source: &str) -> (e: AppError)
        ensures
            e@ == (AppErrorView { source: Some(source@), ..self@ }),
    {
        let mut e = self;
        e.source = Some(source.to_string());
        e
    }

    /// The client-safe message (what `Display` shows): internal errors are masked.
    pub fn display_message(&self) -> (s: String)
        ensures
            s@ == display_text(self@),
    {
        if matches!(self.kind, AppErrorKind::Internal) {
            "Internal error".to_string()
        } else {
            self.message.clone()
        }
    }

    /// The full diagnostic tree (what `Debug` shows).
    pub fn diagnostic(&self) -> (s: String)
        ensures
            s@ == diagnostic_text(self@),
    {
        let mut s = kind_name_exec(self.kind);
        s.append(": ");
        s.append(self.message.as_str());
        match &self.operation {
            Some(op) => {
                s.append(" [operation=");
                s.append(op.as_str());
                s.append("]");
            },
            None => {},
        }
        let ghost head = s@;
        let mut i: usize = 0;
        while i < self.context.len()
            invariant
                i <= self.context.len(),
                s@ == head + context_text(self@.context.take(i as int)),
            decreases self.context.len() - i,
        {
            let (k, v) = &self.context[i];
            s.append(" [");
            s.append(k.as_str());
            s.append("=");
            s.append(v.as_str());
            s.append("]");
            proof {
                let ctx = self@.context.take(i + 1);
                assert(ctx.drop_last() =~= self@.context.take(i as int));
                assert(ctx.last() == (k@, v@));
            }
            i += 1;
        }
        assert(self@.context.take(self.context.len() as int) =~= self@.context);
        match &self.source {
            Some(src) => {
                s.append("\n  caused by: ");
                s.append(src.as_str());
            },
            None => {},
        }
        s
    }
}

/// The `Debug` name of a kind.
fn kind_name_exec(kind: AppErrorKind) -> (s: String)
    ensures
        s@ == kind_name(kind),
{
    match kind {
        AppErrorKind::InvalidInput => "InvalidInput".to_string(),
        AppErrorKind::NotFound => "NotFound".to_string(),
        AppErrorKind::Conflict => "Conflict".to_string(),
        AppErrorKind::BusinessRuleViolation => "BusinessRuleViolation".to_string(),
        AppErrorKind::Internal => "Internal".to_string(),
        AppErrorKind::Unauthorized => "Unauthorized".to_string(),
        AppErrorKind::Forbidden => "Forbidden".to_string(),
        AppErrorKind::Unavailable => "Unavailable".to_string(),
        AppErrorKind::RateLimited => "RateLimited".to_string(),
    }
}

} // verus!
