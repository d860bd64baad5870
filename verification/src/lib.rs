pub mod config;
pub mod events;
pub mod fastcgi;
pub mod number;
pub mod params;
pub mod php_instance;
pub mod php_sapi;
pub mod pool_manager;
pub mod privileges;
pub mod request;
pub mod serving;
pub mod text;
pub mod worker_pool;
