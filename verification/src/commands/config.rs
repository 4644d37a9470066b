//! The settings of the application.

use crate::models::error::ApiError;
use crate::utils::text::join2;
use vstd::prelude::*;

verus! {

/// The settings of the application.
#[derive(Debug)]
pub struct AppConfig {
    /// Whether the files come from a server.
    pub online: bool,
    pub server_url: String,
    pub base_dir: String,
}

impl Default for AppConfig {
    /// The settings before the user has chosen any.
    fn default() -> (config: Self)
        ensures
            config.online,
            config.server_url@ == "http://localhost:8080"@,
            config.base_dir@ == "E:/ZTEMP/kukuku"@,
    {
        AppConfig {
            online: true,
            server_url: "http://localhost:8080".to_owned(),
            base_dir: "E:/ZTEMP/kukuku".to_owned(),
        }
    }
}

impl Clone for AppConfig {
    fn clone(&self) -> (copy: Self)
        ensures
            copy == *self,
    {
        AppConfig {
            online: self.online,
            server_url: self.server_url.clone(),
            base_dir: self.base_dir.clone(),
        }
    }
}

/// Whether the settings say that the files come from a server.
pub fn is_online(config: &AppConfig) -> (online: bool)
    ensures
        online == config.online,
{
    config.online
}

/// The address of the database in the file `db_path`. A path that is empty
/// or no text is refused with a server error.
pub fn database_url(db_path: Option<&str>) -> (url: Result<String, ApiError>)
    ensures
        match db_path {
            Some(path) => if path@.len() > 0 {
                url is Ok && url->Ok_0@ == "sqlite:"@ + path@
            } else {
                url is Err && url->Err_0.status_code == 500 && url->Err_0.message@
                    == "数据库路径无效"@
            },
            None => url is Err && url->Err_0.status_code == 500 && url->Err_0.message@
                == "数据库路径无效"@,
        },
{
    match db_path {
        Some(path) => {
            if path.is_empty() {
                Err(ApiError::new(500, "数据库路径无效".to_owned()))
            } else {
                Ok(join2("sqlite:", path))
            }
        },
        None => Err(ApiError::new(500, "数据库路径无效".to_owned())),
    }
}

} // verus!
