//! Building blocks shared by the services.

pub mod admission;
pub mod decimal;
pub mod lru_cache;
pub mod path_validator;
pub mod paths;
pub mod text;
