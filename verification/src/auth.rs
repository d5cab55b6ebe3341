//! Which profile, host, organization and token a command runs with.
//!
//! Each field is looked up flag first, then environment, then the
//! configuration file.

use vstd::prelude::*;
use crate::config::{Config, Profile};
use crate::text::{opt_text, opt_view, clone_opt, own_opt};

verus! {

/// The credentials a command runs with.
pub struct Resolved {
    pub profile_name: String,
    pub host: String,
    pub org: Option<String>,
    pub auth_token: String,
}

/// The values of `SNTRY_PROFILE`, `SENTRY_HOST`, `SENTRY_ORG` and
/// `SENTRY_AUTH_TOKEN` (`None` where unset).
pub struct EnvOverrides {
    pub profile: Option<String>,
    pub host: Option<String>,
    pub org: Option<String>,
    pub auth_token: Option<String>,
}

/// Why credentials could not be put together.
pub enum AuthError {
    /// `--profile` named a profile that the file lacks.
    ProfileNotFound { name: String },
    /// No token in the environment or in the profile.
    NotAuthenticated,
    /// The command needs an organization and none is set.
    NoOrganization,
}

impl AuthError {
    pub open spec fn spec_message(&self) -> Seq<char> {
        match self {
            AuthError::ProfileNotFound { name } => "Profile '"@ + name@
                + "' not found. Run 'sntry auth list' to see available profiles."@,
            AuthError::NotAuthenticated => "Not authenticated. Run 'sntry auth login' to set up credentials."@,
            AuthError::NoOrganization => "No organization configured. Pass --org <slug> or set one in your profile."@,
        }
    }

    /// The text shown to the user.
    pub fn message(&self) -> (r: String)
        ensures
            r@ == self.spec_message(),
    {
        match self {
            AuthError::ProfileNotFound { name } => {
                let mut r = String::from_str("Profile '");
                r.append(name.as_str());
                r.append("' not found. Run 'sntry auth list' to see available profiles.");
                r
            },
            AuthError::NotAuthenticated => String::from_str(
                "Not authenticated. Run 'sntry auth login' to set up credentials.",
            ),
            AuthError::NoOrganization => String::from_str(
                "No organization configured. Pass --org <slug> or set one in your profile.",
            ),
        }
    }
}

/// The first of `a`, `b` that is set.
pub open spec fn first_set(a: Option<Seq<char>>, b: Option<Seq<char>>) -> Option<Seq<char>> {
    match a {
        Some(x) => Some(x),
        None => b,
    }
}

/// The profile a command uses: `--profile`, else `SNTRY_PROFILE`, else the
/// configured default, else `default`.
pub open spec fn chosen_profile(cfg: Config, cli_profile: Option<Seq<char>>, env: EnvOverrides) -> Seq<char> {
    match first_set(first_set(cli_profile, opt_text(env.profile)), opt_text(cfg.default_profile)) {
        Some(n) => n,
        None => "default"@,
    }
}

/// The profile order: `--profile` wins; without it `SNTRY_PROFILE`, even
/// where the file names an active profile; then the active profile; then
/// `default`.
pub proof fn lemma_profile_order(cfg: Config, cli_profile: Option<Seq<char>>, env: EnvOverrides)
    ensures
        cli_profile matches Some(p) ==> chosen_profile(cfg, cli_profile, env) == p,
        cli_profile is None ==> (env.profile matches Some(e) ==> chosen_profile(cfg, cli_profile, env) == e@),
        cli_profile is None && env.profile is None ==> (cfg.default_profile matches Some(d) ==> chosen_profile(
            cfg,
            cli_profile,
            env,
        ) == d@),
        cli_profile is None && env.profile is None && cfg.default_profile is None ==> chosen_profile(
            cfg,
            cli_profile,
            env,
        ) == "default"@,
{
}

/// The profile's entry in the file, if any.
pub open spec fn file_profile(cfg: Config, name: Seq<char>) -> Option<Profile> {
    if cfg.profiles@.contains_key(name) {
        Some(cfg.profiles@[name])
    } else {
        None
    }
}

pub open spec fn spec_host(file: Option<Profile>, env: EnvOverrides) -> Seq<char> {
    match opt_text(env.host) {
        Some(h) => h,
        None => match file {
            Some(p) => p.host@,
            None => "sentry.io"@,
        },
    }
}

pub open spec fn spec_org(file: Option<Profile>, cli_org: Option<Seq<char>>, env: EnvOverrides) -> Option<Seq<char>> {
    first_set(
        first_set(cli_org, opt_text(env.org)),
        match file {
            Some(p) => opt_text(p.org),
            None => None,
        },
    )
}

pub open spec fn spec_token(file: Option<Profile>, env: EnvOverrides) -> Option<Seq<char>> {
    first_set(
        opt_text(env.auth_token),
        match file {
            Some(p) => Some(p.auth_token@),
            None => None,
        },
    )
}

/// Puts the credentials together from the flags, the environment and the
/// configuration file.
pub fn resolve(cfg: &Config, cli_profile: Option<&str>, cli_org: Option<&str>, env: &EnvOverrides) -> (r: Result<
    Resolved,
    AuthError,
>)
    ensures
        r matches Ok(res) ==> res.profile_name@ == match cli_profile {
            Some(p) => p@,
            None => match env.profile {
                Some(e) => e@,
                None => match cfg.default_profile {
                    Some(d) => d@,
                    None => "default"@,
                },
            },
        },
        ({
            let name = chosen_profile(*cfg, opt_view(cli_profile), *env);
            let file = file_profile(*cfg, name);
            if cli_profile is Some && file is None {
                r matches Err(AuthError::ProfileNotFound { name: n }) && n@ == name
            } else if spec_token(file, *env) is None {
                r matches Err(AuthError::NotAuthenticated)
            } else {
                r matches Ok(res) && res.profile_name@ == name && res.host@ == spec_host(file, *env)
                    && opt_text(res.org) == spec_org(file, opt_view(cli_org), *env) && Some(
                    res.auth_token@,
                ) == spec_token(file, *env)
            }
        }),
{
    let profile_name: String = match cli_profile {
        Some(p) => String::from_str(p),
        None => match &env.profile {
            Some(p) => p.clone(),
            None => match &cfg.default_profile {
                Some(p) => p.clone(),
                None => String::from_str("default"),
            },
        },
    };
    let from_file = cfg.profiles.get(profile_name.as_str());
    if cli_profile.is_some() && from_file.is_none() {
        return Err(AuthError::ProfileNotFound { name: profile_name });
    }
    let host: String = match &env.host {
        Some(h) => h.clone(),
        None => match from_file {
            Some(p) => p.host.clone(),
            None => String::from_str("sentry.io"),
        },
    };
    let org: Option<String> = match cli_org {
        Some(o) => Some(String::from_str(o)),
        None => match &env.org {
            Some(o) => Some(o.clone()),
            None => match from_file {
                Some(p) => clone_opt(&p.org),
                None => None,
            },
        },
    };
    let auth_token: String = match &env.auth_token {
        Some(t) => t.clone(),
        None => match from_file {
            Some(p) => p.auth_token.clone(),
            None => {
                return Err(AuthError::NotAuthenticated);
            },
        },
    };
    Ok(Resolved { profile_name, host, org, auth_token })
}

/// The organization slug, which most commands need.
pub fn require_org(r: &Resolved) -> (o: Result<&str, AuthError>)
    ensures
        match r.org {
            Some(s) => (o matches Ok(t) && t@ == s@),
            None => o matches Err(AuthError::NoOrganization),
        },
{
    match &r.org {
        Some(s) => Ok(s.as_str()),
        None => Err(AuthError::NoOrganization),
    }
}

} // verus!
