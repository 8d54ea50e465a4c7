use std::time::Duration;
use vstd::prelude::*;
use vstd::std_specs::convert::FromSpecImpl;
use vstd::string::StringExecFns;

verus! {

#[verifier::external_type_specification]
#[verifier::external_body]
pub struct ExIoError(std::io::Error);

#[verifier::external_type_specification]
#[verifier::external_body]
pub struct ExReqwestError(reqwest::Error);

/// What `<Duration as Debug>::fmt` writes for a duration, such as `30s` or `1.5ms`.
pub uninterp spec fn duration_debug_text(d: Duration) -> Seq<char>;

/// `format!("{:?}", d)` on a `std::time::Duration`. The contract names the text and says no
/// more: it is a function of the duration alone.
#[verifier::external_body]
fn duration_debug(d: &Duration) -> (s: String)
    ensures
        s@ == duration_debug_text(*d),
{
    format!("{:?}", d)
}

/// `format!("{}", e)` on a `std::io::Error`. Nothing is stated of the text: for an error
/// that the operating system raised it is the system's own message.
#[verifier::external_body]
fn io_error_text(e: &std::io::Error) -> String {
    format!("{}", e)
}

/// `format!("{}", e)` on a `reqwest::Error`. Nothing is stated of the text: it carries the
/// message of the underlying connection or protocol error.
#[verifier::external_body]
fn http_error_text(e: &reqwest::Error) -> String {
    format!("{}", e)
}

/// The errors of the engine and of its parts.
#[derive(Debug)]
pub enum EngineError {
    /// Error during engine initialization
    InitializationError(String),
    /// Spider-related errors
    SpiderError { spider_name: String, error: String },
    /// Scheduler-related errors
    SchedulerError(String),
    /// Pipeline-related errors
    PipelineError { pipeline_name: String, error: String },
    /// Downloader/HTTP-related errors
    DownloaderError(String),
    /// Configuration errors
    ConfigurationError(String),
    /// Thread/concurrency errors
    ThreadError(String),
    /// Channel communication errors
    ChannelError(String),
    /// Timeout errors
    TimeoutError { operation: String, timeout: Duration },
    /// Engine shutdown errors
    ShutdownError(String),
    /// IO errors (file operations, etc.)
    IoError(std::io::Error),
    /// Network/HTTP errors
    HttpError(reqwest::Error),
    /// Serialization/deserialization errors
    SerializationError(String),
}

/// The fixed text that the message of each kind of error starts with.
pub open spec fn error_prefix(e: EngineError) -> Seq<char> {
    match e {
        EngineError::InitializationError(_) => "Engine initialization failed: "@,
        EngineError::SpiderError { .. } => "Spider '"@,
        EngineError::SchedulerError(_) => "Scheduler error: "@,
        EngineError::PipelineError { .. } => "Pipeline '"@,
        EngineError::DownloaderError(_) => "Downloader error: "@,
        EngineError::ConfigurationError(_) => "Configuration error: "@,
        EngineError::ThreadError(_) => "Thread error: "@,
        EngineError::ChannelError(_) => "Channel communication error: "@,
        EngineError::TimeoutError { .. } => "Operation '"@,
        EngineError::ShutdownError(_) => "Engine shutdown error: "@,
        EngineError::IoError(_) => "IO error: "@,
        EngineError::HttpError(_) => "HTTP error: "@,
        EngineError::SerializationError(_) => "Serialization error: "@,
    }
}

/// The message of an error, for every kind whose message is made of the error's own
/// fields; `None` for the kinds that wrap an I/O or HTTP error.
pub open spec fn error_message(e: EngineError) -> Option<Seq<char>> {
    match e {
        EngineError::SpiderError { spider_name, error } => Some(
            "Spider '"@ + spider_name@ + "' error: "@ + error@,
        ),
        EngineError::PipelineError { pipeline_name, error } => Some(
            "Pipeline '"@ + pipeline_name@ + "' error: "@ + error@,
        ),
        EngineError::TimeoutError { operation, timeout } => Some(
            "Operation '"@ + operation@ + "' timed out after "@ + duration_debug_text(timeout),
        ),
        EngineError::InitializationError(msg) => Some(error_prefix(e) + msg@),
        EngineError::SchedulerError(msg) => Some(error_prefix(e) + msg@),
        EngineError::DownloaderError(msg) => Some(error_prefix(e) + msg@),
        EngineError::ConfigurationError(msg) => Some(error_prefix(e) + msg@),
        EngineError::ThreadError(msg) => Some(error_prefix(e) + msg@),
        EngineError::ChannelError(msg) => Some(error_prefix(e) + msg@),
        EngineError::ShutdownError(msg) => Some(error_prefix(e) + msg@),
        EngineError::SerializationError(msg) => Some(error_prefix(e) + msg@),
        EngineError::IoError(_) => None,
        EngineError::HttpError(_) => None,
    }
}

impl EngineError {
    /// The text of the error, as the engine reports it.
    pub fn to_string(&self) -> (s: String)
        ensures
            error_message(*self) matches Some(m) ==> s@ == m,
            s@.len() >= error_prefix(*self).len(),
            s@.subrange(0, error_prefix(*self).len() as int) == error_prefix(*self),
    {
        proof {
            reveal_strlit("Engine initialization failed: ");
            reveal_strlit("Spider '");
            reveal_strlit("Scheduler error: ");
            reveal_strlit("Pipeline '");
            reveal_strlit("Downloader error: ");
            reveal_strlit("Configuration error: ");
            reveal_strlit("Thread error: ");
            reveal_strlit("Channel communication error: ");
            reveal_strlit("Operation '");
            reveal_strlit("Engine shutdown error: ");
            reveal_strlit("IO error: ");
            reveal_strlit("HTTP error: ");
            reveal_strlit("Serialization error: ");
        }
        let s = match self {
            EngineError::InitializationError(msg) => String::from_str(
                "Engine initialization failed: ",
            ).concat(msg.as_str()),
            EngineError::SpiderError { spider_name, error } => String::from_str("Spider '").concat(
                spider_name.as_str(),
            ).concat("' error: ").concat(error.as_str()),
            EngineError::SchedulerError(msg) => String::from_str("Scheduler error: ").concat(
                msg.as_str(),
            ),
            EngineError::PipelineError { pipeline_name, error } => String::from_str(
                "Pipeline '",
            ).concat(pipeline_name.as_str()).concat("' error: ").concat(error.as_str()),
            EngineError::DownloaderError(msg) => String::from_str("Downloader error: ").concat(
                msg.as_str(),
            ),
            EngineError::ConfigurationError(msg) => String::from_str(
                "Configuration error: ",
            ).concat(msg.as_str()),
            EngineError::ThreadError(msg) => String::from_str("Thread error: ").concat(
                msg.as_str(),
            ),
            EngineError::ChannelError(msg) => String::from_str(
                "Channel communication error: ",
            ).concat(msg.as_str()),
            EngineError::TimeoutError { operation, timeout } => {
                let d = duration_debug(timeout);
                String::from_str("Operation '").concat(operation.as_str()).concat(
                    "' timed out after ",
                ).concat(d.as_str())
            },
            EngineError::ShutdownError(msg) => String::from_str("Engine shutdown error: ").concat(
                msg.as_str(),
            ),
            EngineError::IoError(err) => {
                let t = io_error_text(err);
                String::from_str("IO error: ").concat(t.as_str())
            },
            EngineError::HttpError(err) => {
                let t = http_error_text(err);
                String::from_str("HTTP error: ").concat(t.as_str())
            },
            EngineError::SerializationError(msg) => String::from_str("Serialization error: ").concat(
                msg.as_str(),
            ),
        };
        assert(s@.subrange(0, error_prefix(*self).len() as int) =~= error_prefix(*self));
        s
    }

    pub fn spider_error(spider_name: &str, error: &str) -> (e: Self)
        ensures
            e matches EngineError::SpiderError { spider_name: n, error: m } && n@ == spider_name@
                && m@ == error@,
    {
        EngineError::SpiderError { spider_name: spider_name.to_owned(), error: error.to_owned() }
    }

    pub fn pipeline_error(pipeline_name: &str, error: &str) -> (e: Self)
        ensures
            e matches EngineError::PipelineError { pipeline_name: n, error: m } && n@
                == pipeline_name@ && m@ == error@,
    {
        EngineError::PipelineError {
            pipeline_name: pipeline_name.to_owned(),
            error: error.to_owned(),
        }
    }

    pub fn timeout_error(operation: &str, timeout: Duration) -> (e: Self)
        ensures
            e matches EngineError::TimeoutError { operation: o, timeout: t } && o@ == operation@
                && t == timeout,
    {
        EngineError::TimeoutError { operation: operation.to_owned(), timeout }
    }

    pub fn initialization_error(msg: &str) -> (e: Self)
        ensures
            e matches EngineError::InitializationError(m) && m@ == msg@,
    {
        EngineError::InitializationError(msg.to_owned())
    }

    pub fn scheduler_error(msg: &str) -> (e: Self)
        ensures
            e matches EngineError::SchedulerError(m) && m@ == msg@,
    {
        EngineError::SchedulerError(msg.to_owned())
    }

    pub fn downloader_error(msg: &str) -> (e: Self)
        ensures
            e matches EngineError::DownloaderError(m) && m@ == msg@,
    {
        EngineError::DownloaderError(msg.to_owned())
    }

    pub fn configuration_error(msg: &str) -> (e: Self)
        ensures
            e matches EngineError::ConfigurationError(m) && m@ == msg@,
    {
        EngineError::ConfigurationError(msg.to_owned())
    }

    pub fn thread_error(msg: &str) -> (e: Self)
        ensures
            e matches EngineError::ThreadError(m) && m@ == msg@,
    {
        EngineError::ThreadError(msg.to_owned())
    }

    pub fn channel_error(msg: &str) -> (e: Self)
        ensures
            e matches EngineError::ChannelError(m) && m@ == msg@,
    {
        EngineError::ChannelError(msg.to_owned())
    }

    pub fn shutdown_error(msg: &str) -> (e: Self)
        ensures
            e matches EngineError::ShutdownError(m) && m@ == msg@,
    {
        EngineError::ShutdownError(msg.to_owned())
    }

    pub fn serialization_error(msg: &str) -> (e: Self)
        ensures
            e matches EngineError::SerializationError(m) && m@ == msg@,
    {
        EngineError::SerializationError(msg.to_owned())
    }
}

impl From<std::io::Error> for EngineError {
    fn from(err: std::io::Error) -> (e: Self) {
        EngineError::IoError(err)
    }
}

impl FromSpecImpl<std::io::Error> for EngineError {
    open spec fn obeys_from_spec() -> bool {
        true
    }

    open spec fn from_spec(v: std::io::Error) -> Self {
        EngineError::IoError(v)
    }
}

impl From<reqwest::Error> for EngineError {
    fn from(err: reqwest::Error) -> (e: Self) {
        EngineError::HttpError(err)
    }
}

impl FromSpecImpl<reqwest::Error> for EngineError {
    open spec fn obeys_from_spec() -> bool {
        true
    }

    open spec fn from_spec(v: reqwest::Error) -> Self {
        EngineError::HttpError(v)
    }
}

} // verus!
