//! Error types shared across the application.

use vstd::prelude::*;

use crate::text::{push_str, push_chars, chars_of, string_from_chars};

verus! {

/// Errors raised while loading configuration from the environment.
#[derive(Debug)]
pub enum ConfigError {
    /// A required variable is absent or blank.
    MissingVar(&'static str),
    /// A variable holds a value that cannot be parsed.
    InvalidValue { key: &'static str, value: String },
}

/// Errors surfaced while serving an image transform request.
#[derive(Debug)]
pub enum AppError {
    /// The transform string could not be parsed.
    InvalidTransform(String),
    /// The source image exceeds ImageKit-compatible size limits.
    PayloadTooLarge(String),
    /// The requested source object does not exist.
    NotFound,
    /// Image decoding or encoding failed.
    ImageProcessing(String),
    /// A storage (S3) backend failure.
    Storage(String),
    /// A cache (Redis) backend failure.
    Cache(String),
}

/// The mathematical content of an [`AppError`].
pub enum AppErrorView {
    InvalidTransform(Seq<char>),
    PayloadTooLarge(Seq<char>),
    NotFound,
    ImageProcessing(Seq<char>),
    Storage(Seq<char>),
    Cache(Seq<char>),
}

impl View for AppError {
    type V = AppErrorView;

    open spec fn view(&self) -> AppErrorView {
        match self {
            AppError::InvalidTransform(m) => AppErrorView::InvalidTransform(m@),
            AppError::PayloadTooLarge(m) => AppErrorView::PayloadTooLarge(m@),
            AppError::NotFound => AppErrorView::NotFound,
            AppError::ImageProcessing(m) => AppErrorView::ImageProcessing(m@),
            AppError::Storage(m) => AppErrorView::Storage(m@),
            AppError::Cache(m) => AppErrorView::Cache(m@),
        }
    }
}

/// The human-readable text of a configuration error.
pub open spec fn config_error_message(e: ConfigError) -> Seq<char> {
    match e {
        ConfigError::MissingVar(key) => "missing required environment variable: "@ + key@,
        ConfigError::InvalidValue { key, value } => "invalid value for "@ + key@ + ": "@ + value@,
    }
}

/// The human-readable text of an application error.
pub open spec fn app_error_message(e: AppError) -> Seq<char> {
    match e {
        AppError::InvalidTransform(m) => "invalid transform: "@ + m@,
        AppError::PayloadTooLarge(m) => m@,
        AppError::NotFound => "image not found"@,
        AppError::ImageProcessing(m) => "failed to process image: "@ + m@,
        AppError::Storage(m) => "storage error: "@ + m@,
        AppError::Cache(m) => "cache error: "@ + m@,
    }
}

/// The HTTP status code answering an application error.
pub open spec fn app_error_status(e: AppError) -> u16 {
    match e {
        AppError::InvalidTransform(_) | AppError::PayloadTooLarge(_) => 400,
        AppError::NotFound => 404,
        AppError::ImageProcessing(_) | AppError::Storage(_) | AppError::Cache(_) => 500,
    }
}

/// The body sent to the client for an application error: server-side
/// details are not disclosed.
pub open spec fn app_error_body(e: AppError) -> Seq<char> {
    if app_error_status(e) == 404 {
        "Image not found"@
    } else if app_error_status(e) == 500 {
        "Internal server error"@
    } else {
        app_error_message(e)
    }
}

impl ConfigError {
    /// The human-readable text of this error.
    pub fn message(&self) -> (s: String)
        ensures
            s@ == config_error_message(*self),
    {
        let mut out: Vec<char> = Vec::new();
        match self {
            ConfigError::MissingVar(key) => {
                push_str(&mut out, "missing required environment variable: ");
                push_str(&mut out, key);
            },
            ConfigError::InvalidValue { key, value } => {
                push_str(&mut out, "invalid value for ");
                push_str(&mut out, key);
                push_str(&mut out, ": ");
                push_str(&mut out, value.as_str());
            },
        }
        string_from_chars(out.as_slice())
    }
}

impl AppError {
    /// The human-readable text of this error.
    pub fn message(&self) -> (s: String)
        ensures
            s@ == app_error_message(*self),
    {
        let mut out: Vec<char> = Vec::new();
        match self {
            AppError::InvalidTransform(m) => {
                push_str(&mut out, "invalid transform: ");
                push_str(&mut out, m.as_str());
            },
            AppError::PayloadTooLarge(m) => {
                push_str(&mut out, m.as_str());
            },
            AppError::NotFound => {
                push_str(&mut out, "image not found");
            },
            AppError::ImageProcessing(m) => {
                push_str(&mut out, "failed to process image: ");
                push_str(&mut out, m.as_str());
            },
            AppError::Storage(m) => {
                push_str(&mut out, "storage error: ");
                push_str(&mut out, m.as_str());
            },
            AppError::Cache(m) => {
                push_str(&mut out, "cache error: ");
                push_str(&mut out, m.as_str());
            },
        }
        assert(out@ =~= app_error_message(*self));
        string_from_chars(out.as_slice())
    }

    /// The HTTP status code answering this error.
    pub fn status_code(&self) -> (code: u16)
        ensures
            code == app_error_status(*self),
    {
        match self {
            AppError::InvalidTransform(_) | AppError::PayloadTooLarge(_) => 400,
            AppError::NotFound => 404,
            AppError::ImageProcessing(_) | AppError::Storage(_) | AppError::Cache(_) => 500,
        }
    }

    /// Whether the status code is a server error (5xx).
    pub fn is_server_error(&self) -> (b: bool)
        ensures
            b == (app_error_status(*self) >= 500),
    {
        self.status_code() >= 500
    }

    /// The body sent to the client: server-side details are not disclosed.
    pub fn response_body(&self) -> (s: String)
        ensures
            s@ == app_error_body(*self),
    {
        let code = self.status_code();
        if code == 404 {
            let out = chars_of("Image not found");
            string_from_chars(out.as_slice())
        } else if code == 500 {
            let out = chars_of("Internal server error");
            string_from_chars(out.as_slice())
        } else {
            self.message()
        }
    }

    /// Whether this is [`AppError::NotFound`]: a cached marker whose object
    /// is gone, which the pipeline answers by regenerating the image.
    pub fn is_not_found(&self) -> (b: bool)
        ensures
            b == (*self is NotFound),
    {
        match self {
            AppError::NotFound => true,
            _ => false,
        }
    }
}

} // verus!
