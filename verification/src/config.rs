//! Which backends are enabled, and how each is reached.

use vstd::prelude::*;
use crate::error::{ErrorKind, VaultError};
use crate::crypto::clone_bytes;
use crate::password::{clone_opt_string, opt_string_view};

verus! {

/// The backends and their settings.
#[derive(Debug)]
pub struct StorageConfig {
    pub local_storage: Option<LocalStorageConfig>,
    pub github_storage: Option<GithubStorageConfig>,
}

/// The local file backend.
#[derive(Debug)]
pub struct LocalStorageConfig {
    pub enabled: bool,
    /// Absolute path of the snapshot file.
    pub data_path: String,
}

/// The hosted repository backend.
#[derive(Debug)]
pub struct GithubStorageConfig {
    pub enabled: bool,
    pub owner: String,
    pub repo: String,
    pub branch: String,
    pub token: String,
    pub file_path: String,
    /// The name under which commits are made, if one is set.
    pub author_name: Option<String>,
    /// The e-mail address under which commits are made, if one is set.
    pub author_email: Option<String>,
}

/// Settings of the encryption layer.
#[derive(Debug)]
pub struct SecurityConfig {
    pub encryption_salt: Vec<u8>,
    pub double_encrypt_descriptions: bool,
}

/// The application's configuration.
#[derive(Debug)]
pub struct Config {
    pub is_first_setup: bool,
    pub storage: StorageConfig,
    pub security: SecurityConfig,
    pub version: String,
}

impl Clone for LocalStorageConfig {
    fn clone(&self) -> (r: Self)
        ensures
            r.enabled == self.enabled,
            r.data_path@ == self.data_path@,
    {
        LocalStorageConfig { enabled: self.enabled, data_path: self.data_path.clone() }
    }
}

impl Clone for GithubStorageConfig {
    fn clone(&self) -> (r: Self)
        ensures
            r.enabled == self.enabled,
            r.owner@ == self.owner@,
            r.repo@ == self.repo@,
            r.branch@ == self.branch@,
            r.token@ == self.token@,
            r.file_path@ == self.file_path@,
            opt_string_view(r.author_name) == opt_string_view(self.author_name),
            opt_string_view(r.author_email) == opt_string_view(self.author_email),
    {
        GithubStorageConfig {
            enabled: self.enabled,
            owner: self.owner.clone(),
            repo: self.repo.clone(),
            branch: self.branch.clone(),
            token: self.token.clone(),
            file_path: self.file_path.clone(),
            author_name: clone_opt_string(&self.author_name),
            author_email: clone_opt_string(&self.author_email),
        }
    }
}

impl Clone for SecurityConfig {
    fn clone(&self) -> (r: Self)
        ensures
            r.encryption_salt@ == self.encryption_salt@,
            r.double_encrypt_descriptions == self.double_encrypt_descriptions,
    {
        SecurityConfig {
            encryption_salt: clone_bytes(&self.encryption_salt),
            double_encrypt_descriptions: self.double_encrypt_descriptions,
        }
    }
}

impl Config {
    /// The local backend is configured and switched on.
    pub open spec fn local_enabled(&self) -> bool {
        self.storage.local_storage matches Some(local) && local.enabled
    }

    /// The hosted backend is configured and switched on.
    pub open spec fn github_enabled(&self) -> bool {
        self.storage.github_storage matches Some(github) && github.enabled
    }

    /// The configuration can be used: an enabled local backend has a
    /// path, and an enabled hosted backend has owner, repository and token.
    pub open spec fn valid(&self) -> bool {
        &&& self.storage.local_storage matches Some(local) ==> !(local.enabled
            && local.data_path@.len() == 0)
        &&& self.storage.github_storage matches Some(github) ==> !(github.enabled && (
        github.owner@.len() == 0 || github.repo@.len() == 0 || github.token@.len() == 0))
    }

    /// The configuration of a first start: only the local backend, without
    /// a path yet, and a salt of 32 zero bytes.
    pub fn new() -> (c: Config)
        ensures
            c.is_first_setup,
            c.storage.local_storage matches Some(local) && local.enabled && local.data_path@.len()
                == 0,
            c.storage.github_storage is None,
            c.security.encryption_salt@ == Seq::new(32, |i: int| 0u8),
            !c.security.double_encrypt_descriptions,
            c.version@ == "1.0.0"@,
    {
        let mut salt: Vec<u8> = Vec::new();
        let mut i: usize = 0;
        while i < 32
            invariant
                i <= 32,
                salt@ == Seq::new(i as nat, |k: int| 0u8),
            decreases 32 - i,
        {
            salt.push(0u8);
            i += 1;
            assert(salt@ =~= Seq::new(i as nat, |k: int| 0u8));
        }
        Config {
            is_first_setup: true,
            storage: StorageConfig {
                local_storage: Some(
                    LocalStorageConfig { enabled: true, data_path: String::new() },
                ),
                github_storage: None,
            },
            security: SecurityConfig { encryption_salt: salt, double_encrypt_descriptions: false },
            version: "1.0.0".to_owned(),
        }
    }

    /// Checks the configuration. Fails with `NotFoundFailure` exactly when
    /// it is not [`Config::valid`].
    pub fn validate(&self) -> (r: Result<(), VaultError>)
        ensures
            r is Ok <==> self.valid(),
            r matches Err(e) ==> e.kind == ErrorKind::NotFoundFailure,
    {
        if let Some(local) = &self.storage.local_storage {
            if local.enabled && local.data_path.as_str().is_empty() {
                return Err(
                    VaultError::new(
                        ErrorKind::NotFoundFailure,
                        "Local storage path cannot be empty",
                    ),
                );
            }
        }
        if let Some(github) = &self.storage.github_storage {
            if github.enabled {
                if github.owner.as_str().is_empty() || github.repo.as_str().is_empty()
                    || github.token.as_str().is_empty() {
                    return Err(
                        VaultError::new(
                            ErrorKind::NotFoundFailure,
                            "GitHub storage configuration is incomplete",
                        ),
                    );
                }
            }
        }
        Ok(())
    }

    /// Replaces the stored salt.
    pub fn set_encryption_salt(&mut self, salt: Vec<u8>)
        ensures
            final(self).security.encryption_salt == salt,
            final(self).security.double_encrypt_descriptions == old(self).security.double_encrypt_descriptions,
            final(self).is_first_setup == old(self).is_first_setup,
            final(self).storage == old(self).storage,
            final(self).version == old(self).version,
    {
        self.security.encryption_salt = salt;
    }
}

impl Default for Config {
    fn default() -> (c: Config)
        ensures
            c.is_first_setup,
            c.storage.local_storage matches Some(local) && local.enabled && local.data_path@.len()
                == 0,
            c.storage.github_storage is None,
    {
        Config::new()
    }
}

} // verus!
