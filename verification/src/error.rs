//! Error taxonomy shared by the persistence engine and the use-case
//! orchestrators. Every variant carries a human-readable detail message;
//! classification and status-code mapping are specified exactly.

use vstd::prelude::*;
use vstd::string::StringExecFns;

verus! {

/// One error kind per failure class the system distinguishes.
#[derive(Debug)]
pub enum Error {
    DatabaseError(String),
    RedisError(String),
    SerializationError(String),
    ConfigurationError(String),
    ValidationError(String),
    AuthenticationError(String),
    AuthorizationError(String),
    NotFound(String),
    Conflict(String),
    RateLimitExceeded(String),
    InternalServerError(String),
    ExternalServiceError(String),
    Timeout(String),
    InvalidInput(String),
    ResourceUnavailable(String),
    PluginError(String),
    MachineLearningError(String),
    NetworkError(String),
    FileIOError(String),
    ParseError(String),
    EncryptionError(String),
    DecryptionError(String),
    ApiError(String),
    BusinessLogicError(String),
}

impl Error {
    /// Whether the error is the caller's fault (a 4xx-style response).
    pub open spec fn spec_is_client_error(self) -> bool {
        self is ValidationError || self is AuthenticationError || self is AuthorizationError
            || self is NotFound || self is Conflict || self is RateLimitExceeded
            || self is InvalidInput || self is ResourceUnavailable
    }

    /// Whether the error is a fault of the system (a 5xx-style response).
    pub open spec fn spec_is_server_error(self) -> bool {
        self is DatabaseError || self is RedisError || self is InternalServerError
            || self is ExternalServiceError || self is FileIOError || self is EncryptionError
            || self is DecryptionError || self is MachineLearningError || self is NetworkError
    }

    /// The HTTP status code each error kind maps to.
    pub open spec fn spec_http_status_code(self) -> u16 {
        match self {
            Error::ValidationError(_) => 400,
            Error::AuthenticationError(_) => 401,
            Error::AuthorizationError(_) => 403,
            Error::NotFound(_) => 404,
            Error::Conflict(_) => 409,
            Error::RateLimitExceeded(_) => 429,
            Error::InvalidInput(_) => 400,
            Error::ResourceUnavailable(_) => 503,
            Error::Timeout(_) => 408,
            Error::PluginError(_) => 500,
            Error::MachineLearningError(_) => 500,
            Error::NetworkError(_) => 503,
            Error::FileIOError(_) => 500,
            Error::ParseError(_) => 400,
            Error::EncryptionError(_) => 500,
            Error::DecryptionError(_) => 500,
            Error::ApiError(_) => 500,
            Error::BusinessLogicError(_) => 400,
            Error::DatabaseError(_) => 500,
            Error::RedisError(_) => 500,
            Error::SerializationError(_) => 500,
            Error::ConfigurationError(_) => 500,
            Error::ExternalServiceError(_) => 502,
            Error::InternalServerError(_) => 500,
        }
    }

    /// The detail message the error was constructed with.
    pub open spec fn spec_detail(self) -> Seq<char> {
        match self {
            Error::DatabaseError(m) => m@,
            Error::RedisError(m) => m@,
            Error::SerializationError(m) => m@,
            Error::ConfigurationError(m) => m@,
            Error::ValidationError(m) => m@,
            Error::AuthenticationError(m) => m@,
            Error::AuthorizationError(m) => m@,
            Error::NotFound(m) => m@,
            Error::Conflict(m) => m@,
            Error::RateLimitExceeded(m) => m@,
            Error::InternalServerError(m) => m@,
            Error::ExternalServiceError(m) => m@,
            Error::Timeout(m) => m@,
            Error::InvalidInput(m) => m@,
            Error::ResourceUnavailable(m) => m@,
            Error::PluginError(m) => m@,
            Error::MachineLearningError(m) => m@,
            Error::NetworkError(m) => m@,
            Error::FileIOError(m) => m@,
            Error::ParseError(m) => m@,
            Error::EncryptionError(m) => m@,
            Error::DecryptionError(m) => m@,
            Error::ApiError(m) => m@,
            Error::BusinessLogicError(m) => m@,
        }
    }

    /// The fixed prefix `error_message` puts before the detail message.
    pub open spec fn spec_message_prefix(self) -> Seq<char> {
        match self {
            Error::ValidationError(_) => "Validation failed: "@,
            Error::AuthenticationError(_) => "Authentication failed: "@,
            Error::AuthorizationError(_) => "Authorization failed: "@,
            Error::NotFound(_) => "Resource not found: "@,
            Error::Conflict(_) => "Conflict occurred: "@,
            Error::RateLimitExceeded(_) => "Rate limit exceeded: "@,
            Error::InvalidInput(_) => "Invalid input: "@,
            Error::ResourceUnavailable(_) => "Resource unavailable: "@,
            Error::Timeout(_) => "Operation timed out: "@,
            Error::PluginError(_) => "Plugin error: "@,
            Error::MachineLearningError(_) => "Machine learning error: "@,
            Error::NetworkError(_) => "Network error: "@,
            Error::FileIOError(_) => "File I/O error: "@,
            Error::ParseError(_) => "Parse error: "@,
            Error::EncryptionError(_) => "Encryption error: "@,
            Error::DecryptionError(_) => "Decryption error: "@,
            Error::ApiError(_) => "API error: "@,
            Error::BusinessLogicError(_) => "Business logic error: "@,
            Error::DatabaseError(_) => "Database error: "@,
            Error::RedisError(_) => "Redis error: "@,
            Error::SerializationError(_) => "Serialization error: "@,
            Error::ConfigurationError(_) => "Configuration error: "@,
            Error::ExternalServiceError(_) => "External service error: "@,
            Error::InternalServerError(_) => "Internal server error: "@,
        }
    }

    /// Classifies the error as a client-side failure.
    pub fn is_client_error(&self) -> (r: bool)
        ensures
            r == self.spec_is_client_error(),
    {
        match self {
            Error::ValidationError(_) => true,
            Error::AuthenticationError(_) => true,
            Error::AuthorizationError(_) => true,
            Error::NotFound(_) => true,
            Error::Conflict(_) => true,
            Error::RateLimitExceeded(_) => true,
            Error::InvalidInput(_) => true,
            Error::ResourceUnavailable(_) => true,
            _ => false,
        }
    }

    /// Classifies the error as a server-side failure.
    pub fn is_server_error(&self) -> (r: bool)
        ensures
            r == self.spec_is_server_error(),
    {
        match self {
            Error::DatabaseError(_) => true,
            Error::RedisError(_) => true,
            Error::InternalServerError(_) => true,
            Error::ExternalServiceError(_) => true,
            Error::FileIOError(_) => true,
            Error::EncryptionError(_) => true,
            Error::DecryptionError(_) => true,
            Error::MachineLearningError(_) => true,
            Error::NetworkError(_) => true,
            _ => false,
        }
    }

    /// The HTTP status code for the error.
    pub fn http_status_code(&self) -> (r: u16)
        ensures
            r == self.spec_http_status_code(),
    {
        match self {
            Error::ValidationError(_) => 400,
            Error::AuthenticationError(_) => 401,
            Error::AuthorizationError(_) => 403,
            Error::NotFound(_) => 404,
            Error::Conflict(_) => 409,
            Error::RateLimitExceeded(_) => 429,
            Error::InvalidInput(_) => 400,
            Error::ResourceUnavailable(_) => 503,
            Error::Timeout(_) => 408,
            Error::PluginError(_) => 500,
            Error::MachineLearningError(_) => 500,
            Error::NetworkError(_) => 503,
            Error::FileIOError(_) => 500,
            Error::ParseError(_) => 400,
            Error::EncryptionError(_) => 500,
            Error::DecryptionError(_) => 500,
            Error::ApiError(_) => 500,
            Error::BusinessLogicError(_) => 400,
            Error::DatabaseError(_) => 500,
            Error::RedisError(_) => 500,
            Error::SerializationError(_) => 500,
            Error::ConfigurationError(_) => 500,
            Error::ExternalServiceError(_) => 502,
            Error::InternalServerError(_) => 500,
        }
    }

    /// A log-oriented message: a fixed prefix for the kind, then the detail.
    pub fn error_message(&self) -> (r: String)
        ensures
            r@ == self.spec_message_prefix() + self.spec_detail(),
    {
        match self {
            Error::ValidationError(m) => prefixed("Validation failed: ", m),
            Error::AuthenticationError(m) => prefixed("Authentication failed: ", m),
            Error::AuthorizationError(m) => prefixed("Authorization failed: ", m),
            Error::NotFound(m) => prefixed("Resource not found: ", m),
            Error::Conflict(m) => prefixed("Conflict occurred: ", m),
            Error::RateLimitExceeded(m) => prefixed("Rate limit exceeded: ", m),
            Error::InvalidInput(m) => prefixed("Invalid input: ", m),
            Error::ResourceUnavailable(m) => prefixed("Resource unavailable: ", m),
            Error::Timeout(m) => prefixed("Operation timed out: ", m),
            Error::PluginError(m) => prefixed("Plugin error: ", m),
            Error::MachineLearningError(m) => prefixed("Machine learning error: ", m),
            Error::NetworkError(m) => prefixed("Network error: ", m),
            Error::FileIOError(m) => prefixed("File I/O error: ", m),
            Error::ParseError(m) => prefixed("Parse error: ", m),
            Error::EncryptionError(m) => prefixed("Encryption error: ", m),
            Error::DecryptionError(m) => prefixed("Decryption error: ", m),
            Error::ApiError(m) => prefixed("API error: ", m),
            Error::BusinessLogicError(m) => prefixed("Business logic error: ", m),
            Error::DatabaseError(m) => prefixed("Database error: ", m),
            Error::RedisError(m) => prefixed("Redis error: ", m),
            Error::SerializationError(m) => prefixed("Serialization error: ", m),
            Error::ConfigurationError(m) => prefixed("Configuration error: ", m),
            Error::ExternalServiceError(m) => prefixed("External service error: ", m),
            Error::InternalServerError(m) => prefixed("Internal server error: ", m),
        }
    }
}

/// Concatenates a fixed prefix and a detail message.
fn prefixed(prefix: &str, msg: &String) -> (r: String)
    ensures
        r@ == prefix@ + msg@,
{
    let mut s = prefix.to_owned();
    s.append(msg.as_str());
    s
}

/// The message shown to an end user for each error kind.
pub open spec fn spec_user_friendly_message(error: Error) -> Seq<char> {
    match error {
        Error::ValidationError(_) => "The submitted data is not valid."@,
        Error::AuthenticationError(_) => "Authentication failed."@,
        Error::AuthorizationError(_) => "You do not have permission to access this resource."@,
        Error::NotFound(_) => "The requested resource was not found."@,
        Error::Conflict(_) => "The resource conflicts with an existing one."@,
        Error::RateLimitExceeded(_) => "Request limit exceeded. Please wait and try again."@,
        Error::InvalidInput(_) => "The submitted data is not valid."@,
        Error::ResourceUnavailable(_) => "The resource is currently unavailable."@,
        Error::Timeout(_) => "The operation timed out."@,
        Error::PluginError(_) => "A plugin error occurred."@,
        Error::MachineLearningError(_) => "A machine learning error occurred."@,
        Error::NetworkError(_) => "A network error occurred."@,
        Error::FileIOError(_) => "A file operation failed."@,
        Error::ParseError(_) => "The data could not be parsed."@,
        Error::EncryptionError(_) => "An encryption error occurred."@,
        Error::DecryptionError(_) => "A decryption error occurred."@,
        Error::ApiError(_) => "An API error occurred."@,
        Error::BusinessLogicError(_) => "A business rule rejected the request."@,
        Error::DatabaseError(_) => "A storage error occurred."@,
        Error::RedisError(_) => "A cache error occurred."@,
        Error::SerializationError(_) => "A data conversion error occurred."@,
        Error::ConfigurationError(_) => "A configuration error occurred."@,
        Error::ExternalServiceError(_) => "An external service error occurred."@,
        Error::InternalServerError(_) => "An internal server error occurred."@,
    }
}

/// Translates an error into the message shown to an end user. The detail
/// message is deliberately not leaked.
pub fn user_friendly_message(error: &Error) -> (r: String)
    ensures
        r@ == spec_user_friendly_message(*error),
{
    match error {
        Error::ValidationError(_) => "The submitted data is not valid.".to_owned(),
        Error::AuthenticationError(_) => "Authentication failed.".to_owned(),
        Error::AuthorizationError(_) => "You do not have permission to access this resource.".to_owned(),
        Error::NotFound(_) => "The requested resource was not found.".to_owned(),
        Error::Conflict(_) => "The resource conflicts with an existing one.".to_owned(),
        Error::RateLimitExceeded(_) => "Request limit exceeded. Please wait and try again.".to_owned(),
        Error::InvalidInput(_) => "The submitted data is not valid.".to_owned(),
        Error::ResourceUnavailable(_) => "The resource is currently unavailable.".to_owned(),
        Error::Timeout(_) => "The operation timed out.".to_owned(),
        Error::PluginError(_) => "A plugin error occurred.".to_owned(),
        Error::MachineLearningError(_) => "A machine learning error occurred.".to_owned(),
        Error::NetworkError(_) => "A network error occurred.".to_owned(),
        Error::FileIOError(_) => "A file operation failed.".to_owned(),
        Error::ParseError(_) => "The data could not be parsed.".to_owned(),
        Error::EncryptionError(_) => "An encryption error occurred.".to_owned(),
        Error::DecryptionError(_) => "A decryption error occurred.".to_owned(),
        Error::ApiError(_) => "An API error occurred.".to_owned(),
        Error::BusinessLogicError(_) => "A business rule rejected the request.".to_owned(),
        Error::DatabaseError(_) => "A storage error occurred.".to_owned(),
        Error::RedisError(_) => "A cache error occurred.".to_owned(),
        Error::SerializationError(_) => "A data conversion error occurred.".to_owned(),
        Error::ConfigurationError(_) => "A configuration error occurred.".to_owned(),
        Error::ExternalServiceError(_) => "An external service error occurred.".to_owned(),
        Error::InternalServerError(_) => "An internal server error occurred.".to_owned(),
    }
}

} // verus!
