//! Application configuration: the settings record, fixed per-environment
//! constructors, and validation. Reading configuration files or the
//! process environment is the caller's concern; the constructors here are
//! pure and fully specified.

use vstd::prelude::*;

verus! {

/// Base application settings.
#[derive(Debug)]
pub struct AppSettings {
    pub name: String,
    pub version: String,
    pub environment: String,
    pub debug: bool,
    pub host: String,
    pub port: u16,
}

/// Relational storage settings.
#[derive(Debug)]
pub struct DatabaseConfig {
    pub url: String,
    pub max_connections: u32,
    pub min_connections: u32,
    pub connection_timeout: u64,
    pub idle_timeout: u64,
    pub max_lifetime: u64,
}

/// Cache storage settings.
#[derive(Debug)]
pub struct RedisConfig {
    pub url: String,
    pub pool_size: u32,
    pub connection_timeout: u64,
    pub read_timeout: u64,
    pub write_timeout: u64,
}

/// HTTP front-end settings.
#[derive(Debug)]
pub struct HttpConfig {
    pub cors_origins: Vec<String>,
    pub rate_limit_requests: u32,
    pub rate_limit_window: u64,
    pub request_timeout: u64,
    pub max_body_size: usize,
}

/// Security settings.
#[derive(Debug)]
pub struct SecurityConfig {
    pub jwt_secret: String,
    pub jwt_expiration: u64,
    pub bcrypt_cost: u32,
    pub api_key_required: bool,
    pub encryption_enabled: bool,
    pub allowed_ips: Vec<String>,
}

/// Logging settings.
#[derive(Debug)]
pub struct LoggingConfig {
    pub level: String,
    pub format: String,
    pub output: String,
    pub file_path: Option<String>,
    pub max_file_size: Option<usize>,
    pub max_files: Option<usize>,
}

/// Machine learning settings.
#[derive(Debug)]
pub struct MachineLearningConfig {
    pub model_cache_size: usize,
    pub training_timeout: u64,
    pub inference_timeout: u64,
    pub gpu_enabled: bool,
    pub model_update_interval: u64,
}

/// Plugin host settings.
#[derive(Debug)]
pub struct PluginConfig {
    pub plugin_directory: String,
    pub auto_load: bool,
    pub sandbox_enabled: bool,
    pub max_plugin_memory: usize,
}

/// The whole application configuration.
#[derive(Debug)]
pub struct AppConfig {
    pub app: AppSettings,
    pub database: DatabaseConfig,
    pub redis: RedisConfig,
    pub http: HttpConfig,
    pub security: SecurityConfig,
    pub logging: LoggingConfig,
    pub machine_learning: MachineLearningConfig,
    pub plugins: PluginConfig,
}

/// The message `validate` rejects a configuration with, if any: the checks
/// run in a fixed order and the first failing one names the fault.
pub open spec fn spec_validation_error(c: AppConfig) -> Option<Seq<char>> {
    if c.app.name@.len() == 0 {
        Some("App name cannot be empty"@)
    } else if c.app.port == 0 {
        Some("App port cannot be 0"@)
    } else if c.database.url@.len() == 0 {
        Some("Database URL cannot be empty"@)
    } else if c.redis.url@.len() == 0 {
        Some("Redis URL cannot be empty"@)
    } else if c.security.jwt_secret@.len() == 0 {
        Some("JWT secret cannot be empty"@)
    } else {
        None
    }
}

impl AppConfig {
    /// Fixed settings for local development: debug on, local storage, a
    /// permissive rate limit, verbose logging.
    pub fn development() -> (r: Self)
        ensures
            r.app.name@ == "AI Agent System"@,
            r.app.version@ == "0.1.0"@,
            r.app.environment@ == "development"@,
            r.app.debug == true,
            r.app.host@ == "127.0.0.1"@,
            r.app.port == 8080,
            r.database.url@ == "postgresql://localhost/ai_agent_dev"@,
            r.database.max_connections == 10,
            r.database.min_connections == 2,
            r.database.connection_timeout == 30,
            r.database.idle_timeout == 300,
            r.database.max_lifetime == 3600,
            r.redis.url@ == "redis://localhost:6379"@,
            r.redis.pool_size == 5,
            r.redis.connection_timeout == 5,
            r.redis.read_timeout == 3,
            r.redis.write_timeout == 3,
            r.http.cors_origins@.len() == 1,
            r.http.cors_origins@[0]@ == "http://localhost:3000"@,
            r.http.rate_limit_requests == 1000,
            r.http.rate_limit_window == 3600,
            r.http.request_timeout == 30,
            r.http.max_body_size == 10485760,
            r.security.jwt_secret@ == "dev-secret-key-change-in-production"@,
            r.security.jwt_expiration == 86400,
            r.security.bcrypt_cost == 10,
            r.security.api_key_required == false,
            r.security.encryption_enabled == false,
            r.security.allowed_ips@.len() == 2,
            r.security.allowed_ips@[0]@ == "127.0.0.1"@,
            r.security.allowed_ips@[1]@ == "::1"@,
            r.logging.level@ == "debug"@,
            r.logging.format@ == "json"@,
            r.logging.output@ == "console"@,
            r.logging.file_path matches Some(p) && p@ == "logs/app.log"@,
            r.logging.max_file_size == Some(104857600usize),
            r.logging.max_files == Some(10usize),
            r.machine_learning.model_cache_size == 100,
            r.machine_learning.training_timeout == 3600,
            r.machine_learning.inference_timeout == 30,
            r.machine_learning.gpu_enabled == false,
            r.machine_learning.model_update_interval == 86400,
            r.plugins.plugin_directory@ == "plugins"@,
            r.plugins.auto_load == true,
            r.plugins.sandbox_enabled == true,
            r.plugins.max_plugin_memory == 104857600,
            spec_validation_error(r) is None,
    {
        let mut cors_origins: Vec<String> = Vec::new();
        cors_origins.push("http://localhost:3000".to_owned());
        let mut allowed_ips: Vec<String> = Vec::new();
        allowed_ips.push("127.0.0.1".to_owned());
        allowed_ips.push("::1".to_owned());
        let r = AppConfig {
            app: AppSettings {
                name: "AI Agent System".to_owned(),
                version: "0.1.0".to_owned(),
                environment: "development".to_owned(),
                debug: true,
                host: "127.0.0.1".to_owned(),
                port: 8080,
            },
            database: DatabaseConfig {
                url: "postgresql://localhost/ai_agent_dev".to_owned(),
                max_connections: 10,
                min_connections: 2,
                connection_timeout: 30,
                idle_timeout: 300,
                max_lifetime: 3600,
            },
            redis: RedisConfig {
                url: "redis://localhost:6379".to_owned(),
                pool_size: 5,
                connection_timeout: 5,
                read_timeout: 3,
                write_timeout: 3,
            },
            http: HttpConfig {
                cors_origins,
                rate_limit_requests: 1000,
                rate_limit_window: 3600,
                request_timeout: 30,
                max_body_size: 10485760,
            },
            security: SecurityConfig {
                jwt_secret: "dev-secret-key-change-in-production".to_owned(),
                jwt_expiration: 86400,
                bcrypt_cost: 10,
                api_key_required: false,
                encryption_enabled: false,
                allowed_ips,
            },
            logging: LoggingConfig {
                level: "debug".to_owned(),
                format: "json".to_owned(),
                output: "console".to_owned(),
                file_path: Some("logs/app.log".to_owned()),
                max_file_size: Some(104857600),
                max_files: Some(10),
            },
            machine_learning: MachineLearningConfig {
                model_cache_size: 100,
                training_timeout: 3600,
                inference_timeout: 30,
                gpu_enabled: false,
                model_update_interval: 86400,
            },
            plugins: PluginConfig {
                plugin_directory: "plugins".to_owned(),
                auto_load: true,
                sandbox_enabled: true,
                max_plugin_memory: 104857600,
            },
        };
        proof {
            reveal_strlit("AI Agent System");
            reveal_strlit("postgresql://localhost/ai_agent_dev");
            reveal_strlit("redis://localhost:6379");
            reveal_strlit("dev-secret-key-change-in-production");
        }
        r
    }

    /// Fixed settings for production, but for the values that come from
    /// the deployment environment: the storage addresses, which fall back
    /// to local defaults when absent, and the token secret, which the
    /// caller must supply.
    pub fn production(
        database_url: Option<String>,
        redis_url: Option<String>,
        jwt_secret: String,
    ) -> (r: Self)
        ensures
            r.app.name@ == "AI Agent System"@,
            r.app.version@ == "0.1.0"@,
            r.app.environment@ == "production"@,
            r.app.debug == false,
            r.app.host@ == "0.0.0.0"@,
            r.app.port == 8080,
            r.database.url@ == (if database_url is Some {
                database_url->0@
            } else {
                "postgresql://localhost/ai_agent_prod"@
            }),
            r.database.max_connections == 50,
            r.database.min_connections == 10,
            r.database.connection_timeout == 30,
            r.database.idle_timeout == 300,
            r.database.max_lifetime == 3600,
            r.redis.url@ == (if redis_url is Some {
                redis_url->0@
            } else {
                "redis://localhost:6379"@
            }),
            r.redis.pool_size == 20,
            r.redis.connection_timeout == 5,
            r.redis.read_timeout == 3,
            r.redis.write_timeout == 3,
            r.http.cors_origins@.len() == 0,
            r.http.rate_limit_requests == 100,
            r.http.rate_limit_window == 3600,
            r.http.request_timeout == 30,
            r.http.max_body_size == 10485760,
            r.security.jwt_secret == jwt_secret,
            r.security.jwt_expiration == 86400,
            r.security.bcrypt_cost == 12,
            r.security.api_key_required == true,
            r.security.encryption_enabled == true,
            r.security.allowed_ips@.len() == 0,
            r.logging.level@ == "info"@,
            r.logging.format@ == "json"@,
            r.logging.output@ == "file"@,
            r.logging.file_path matches Some(p) && p@ == "/var/log/ai-agent/app.log"@,
            r.logging.max_file_size == Some(104857600usize),
            r.logging.max_files == Some(30usize),
            r.machine_learning.model_cache_size == 1000,
            r.machine_learning.training_timeout == 7200,
            r.machine_learning.inference_timeout == 60,
            r.machine_learning.gpu_enabled == true,
            r.machine_learning.model_update_interval == 86400,
            r.plugins.plugin_directory@ == "/opt/ai-agent/plugins"@,
            r.plugins.auto_load == false,
            r.plugins.sandbox_enabled == true,
            r.plugins.max_plugin_memory == 524288000,
    {
        let url = match database_url {
            Some(u) => u,
            None => "postgresql://localhost/ai_agent_prod".to_owned(),
        };
        let cache_url = match redis_url {
            Some(u) => u,
            None => "redis://localhost:6379".to_owned(),
        };
        AppConfig {
            app: AppSettings {
                name: "AI Agent System".to_owned(),
                version: "0.1.0".to_owned(),
                environment: "production".to_owned(),
                debug: false,
                host: "0.0.0.0".to_owned(),
                port: 8080,
            },
            database: DatabaseConfig {
                url,
                max_connections: 50,
                min_connections: 10,
                connection_timeout: 30,
                idle_timeout: 300,
                max_lifetime: 3600,
            },
            redis: RedisConfig {
                url: cache_url,
                pool_size: 20,
                connection_timeout: 5,
                read_timeout: 3,
                write_timeout: 3,
            },
            http: HttpConfig {
                cors_origins: Vec::new(),
                rate_limit_requests: 100,
                rate_limit_window: 3600,
                request_timeout: 30,
                max_body_size: 10485760,
            },
            security: SecurityConfig {
                jwt_secret,
                jwt_expiration: 86400,
                bcrypt_cost: 12,
                api_key_required: true,
                encryption_enabled: true,
                allowed_ips: Vec::new(),
            },
            logging: LoggingConfig {
                level: "info".to_owned(),
                format: "json".to_owned(),
                output: "file".to_owned(),
                file_path: Some("/var/log/ai-agent/app.log".to_owned()),
                max_file_size: Some(104857600),
                max_files: Some(30),
            },
            machine_learning: MachineLearningConfig {
                model_cache_size: 1000,
                training_timeout: 7200,
                inference_timeout: 60,
                gpu_enabled: true,
                model_update_interval: 86400,
            },
            plugins: PluginConfig {
                plugin_directory: "/opt/ai-agent/plugins".to_owned(),
                auto_load: false,
                sandbox_enabled: true,
                max_plugin_memory: 524288000,
            },
        }
    }

    /// Fixed settings for tests: an in-memory database, a random port, and
    /// small limits. Port zero deliberately fails `validate`.
    pub fn test() -> (r: Self)
        ensures
            r.app.name@ == "AI Agent System Test"@,
            r.app.version@ == "0.1.0"@,
            r.app.environment@ == "test"@,
            r.app.debug == true,
            r.app.host@ == "127.0.0.1"@,
            r.app.port == 0,
            r.database.url@ == "sqlite::memory:"@,
            r.database.max_connections == 1,
            r.database.min_connections == 1,
            r.database.connection_timeout == 5,
            r.database.idle_timeout == 60,
            r.database.max_lifetime == 300,
            r.redis.url@ == "redis://localhost:6379/1"@,
            r.redis.pool_size == 1,
            r.redis.connection_timeout == 1,
            r.redis.read_timeout == 1,
            r.redis.write_timeout == 1,
            r.http.cors_origins@.len() == 1,
            r.http.cors_origins@[0]@ == "http://localhost:3000"@,
            r.http.rate_limit_requests == 10000,
            r.http.rate_limit_window == 3600,
            r.http.request_timeout == 60,
            r.http.max_body_size == 104857600,
            r.security.jwt_secret@ == "test-secret-key"@,
            r.security.jwt_expiration == 3600,
            r.security.bcrypt_cost == 4,
            r.security.api_key_required == false,
            r.security.encryption_enabled == false,
            r.security.allowed_ips@.len() == 1,
            r.security.allowed_ips@[0]@ == "127.0.0.1"@,
            r.logging.level@ == "debug"@,
            r.logging.format@ == "text"@,
            r.logging.output@ == "console"@,
            r.logging.file_path is None,
            r.logging.max_file_size is None,
            r.logging.max_files is None,
            r.machine_learning.model_cache_size == 10,
            r.machine_learning.training_timeout == 300,
            r.machine_learning.inference_timeout == 10,
            r.machine_learning.gpu_enabled == false,
            r.machine_learning.model_update_interval == 3600,
            r.plugins.plugin_directory@ == "test-plugins"@,
            r.plugins.auto_load == false,
            r.plugins.sandbox_enabled == true,
            r.plugins.max_plugin_memory == 10485760,
    {
        let mut cors_origins: Vec<String> = Vec::new();
        cors_origins.push("http://localhost:3000".to_owned());
        let mut allowed_ips: Vec<String> = Vec::new();
        allowed_ips.push("127.0.0.1".to_owned());
        AppConfig {
            app: AppSettings {
                name: "AI Agent System Test".to_owned(),
                version: "0.1.0".to_owned(),
                environment: "test".to_owned(),
                debug: true,
                host: "127.0.0.1".to_owned(),
                port: 0,
            },
            database: DatabaseConfig {
                url: "sqlite::memory:".to_owned(),
                max_connections: 1,
                min_connections: 1,
                connection_timeout: 5,
                idle_timeout: 60,
                max_lifetime: 300,
            },
            redis: RedisConfig {
                url: "redis://localhost:6379/1".to_owned(),
                pool_size: 1,
                connection_timeout: 1,
                read_timeout: 1,
                write_timeout: 1,
            },
            http: HttpConfig {
                cors_origins,
                rate_limit_requests: 10000,
                rate_limit_window: 3600,
                request_timeout: 60,
                max_body_size: 104857600,
            },
            security: SecurityConfig {
                jwt_secret: "test-secret-key".to_owned(),
                jwt_expiration: 3600,
                bcrypt_cost: 4,
                api_key_required: false,
                encryption_enabled: false,
                allowed_ips,
            },
            logging: LoggingConfig {
                level: "debug".to_owned(),
                format: "text".to_owned(),
                output: "console".to_owned(),
                file_path: None,
                max_file_size: None,
                max_files: None,
            },
            machine_learning: MachineLearningConfig {
                model_cache_size: 10,
                training_timeout: 300,
                inference_timeout: 10,
                gpu_enabled: false,
                model_update_interval: 3600,
            },
            plugins: PluginConfig {
                plugin_directory: "test-plugins".to_owned(),
                auto_load: false,
                sandbox_enabled: true,
                max_plugin_memory: 10485760,
            },
        }
    }

    /// Checks the configuration: the application name, storage addresses
    /// and token secret must be nonempty, and the port nonzero. The checks
    /// run in a fixed order and the first failing one names the fault.
    pub fn validate(&self) -> (r: Result<(), String>)
        ensures
            r is Ok <==> spec_validation_error(*self) is None,
            r matches Err(m) ==> spec_validation_error(*self) matches Some(expected) && m@
                == expected,
    {
        if self.app.name.as_str().is_empty() {
            return Err("App name cannot be empty".to_owned());
        }
        if self.app.port == 0 {
            return Err("App port cannot be 0".to_owned());
        }
        if self.database.url.as_str().is_empty() {
            return Err("Database URL cannot be empty".to_owned());
        }
        if self.redis.url.as_str().is_empty() {
            return Err("Redis URL cannot be empty".to_owned());
        }
        if self.security.jwt_secret.as_str().is_empty() {
            return Err("JWT secret cannot be empty".to_owned());
        }
        Ok(())
    }
}

} // verus!
