//! `config path` and `config show`.

use vstd::prelude::*;
use crate::config::{mask_token, masked_from, Config, ConfigError, Profile};

verus! {

pub struct ConfigArgs {
    pub cmd: ConfigCmd,
}

pub enum ConfigCmd {
    /// Print the absolute path of the config file.
    Path,
    /// Print the resolved config (token masked).
    Show { profile: Option<String> },
}

/// What `config show` prints: one profile, or the whole file.
pub enum Shown {
    Profile(Profile),
    Whole(Config),
}

/// `p` masked.
fn masked_profile(p: &Profile) -> (r: Profile)
    ensures
        masked_from(r, *p),
{
    Profile {
        host: p.host.clone(),
        org: match &p.org {
            Some(o) => Some(o.clone()),
            None => None,
        },
        auth_token: mask_token(p.auth_token.as_str()),
    }
}

/// `config show`: with `--profile`, that profile with its token masked
/// (an unknown name is an error); without, the whole configuration with
/// every token masked.
pub fn show(cfg: &Config, profile: Option<&str>) -> (r: Result<Shown, ConfigError>)
    ensures
        match profile {
            Some(name) => if cfg.profiles@.contains_key(name@) {
                r matches Ok(Shown::Profile(p)) && masked_from(p, cfg.profiles@[name@])
            } else {
                r matches Err(ConfigError::ProfileNotFound { name: n }) && n@ == name@
            },
            None => r matches Ok(Shown::Whole(c)) && {
                &&& c.default_profile == cfg.default_profile
                &&& c.default_output == cfg.default_output
                &&& c.profiles@.dom() == cfg.profiles@.dom()
                &&& forall|k: Seq<char>| #[trigger]
                    c.profiles@.contains_key(k) ==> masked_from(c.profiles@[k], cfg.profiles@[k])
            },
        },
{
    match profile {
        Some(name) => match cfg.profiles.get(name) {
            Some(p) => Ok(Shown::Profile(masked_profile(p))),
            None => Err(ConfigError::ProfileNotFound { name: String::from_str(name) }),
        },
        None => {
            let default_profile = match &cfg.default_profile {
                Some(s) => Some(s.clone()),
                None => None,
            };
            let default_output = match &cfg.default_output {
                Some(s) => Some(s.clone()),
                None => None,
            };
            Ok(Shown::Whole(Config { default_profile, default_output, profiles: cfg.profiles.masked() }))
        },
    }
}

} // verus!
