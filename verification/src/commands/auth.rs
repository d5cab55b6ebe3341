//! `auth`: login, logout, use, list and status over the profile file.

use vstd::prelude::*;
use crate::auth::{resolve, EnvOverrides, AuthError, chosen_profile, file_profile, spec_host, spec_org, spec_token};
use crate::config::{Config, Profile, mask_token, spec_mask_token};
use crate::keys::key_lt;
use crate::output::byte_len;
use crate::text::{spec_trim, trim, eq_str, opt_text, pad_right, push_padded};

verus! {

pub struct AuthArgs {
    pub cmd: AuthCmd,
}

pub enum AuthCmd {
    /// Store credentials for a profile.
    Login(LoginArgs),
    /// Remove credentials for a profile (or all profiles).
    Logout(LogoutArgs),
    /// Set the active profile.
    Use(UseArgs),
    /// List configured profiles.
    List,
    /// Show the current authentication state.
    Status,
}

pub struct LoginArgs {
    pub profile: Option<String>,
    pub host: Option<String>,
    pub org: Option<String>,
    pub token: Option<String>,
}

pub struct LogoutArgs {
    pub profile: Option<String>,
    pub all: bool,
}

pub struct UseArgs {
    pub name: String,
}

/// What to do with the configuration file afterwards.
pub enum FileAction {
    /// Leave it as it is.
    Keep,
    /// Write the new configuration.
    Save,
    /// Delete the file, if it exists.
    Remove,
}

/// The new configuration, what to do with the file, and what to print.
pub struct AuthOutcome {
    pub config: Config,
    pub file: FileAction,
    pub stdout: Vec<String>,
    pub stderr: Vec<String>,
}

pub enum AuthCmdError {
    /// `logout` without `--profile` and without an active profile.
    NoProfileSpecified,
    /// `logout --profile` named a profile that does not exist.
    ProfileNotFound { name: String },
    /// `use` named a profile that does not exist.
    UnknownProfile { name: String },
}

impl AuthCmdError {
    pub open spec fn spec_message(&self) -> Seq<char> {
        match self {
            AuthCmdError::NoProfileSpecified => "No profile specified and no active profile set."@,
            AuthCmdError::ProfileNotFound { name } => "Profile '"@ + name@ + "' not found."@,
            AuthCmdError::UnknownProfile { name } => "Profile '"@ + name@
                + "' not found. Run 'sntry auth list' to see available profiles."@,
        }
    }

    pub fn message(&self) -> (r: String)
        ensures
            r@ == self.spec_message(),
    {
        match self {
            AuthCmdError::NoProfileSpecified => String::from_str(
                "No profile specified and no active profile set.",
            ),
            AuthCmdError::ProfileNotFound { name } => {
                let mut r = String::from_str("Profile '");
                r.append(name.as_str());
                r.append("' not found.");
                r
            },
            AuthCmdError::UnknownProfile { name } => {
                let mut r = String::from_str("Profile '");
                r.append(name.as_str());
                r.append("' not found. Run 'sntry auth list' to see available profiles.");
                r
            },
        }
    }
}

/// The lines printed before the token prompt.
pub fn token_hint(host: &str) -> (r: Vec<String>)
    ensures
        views_of(r@) == seq![
            "Create a token at: https://"@ + host@ + "/settings/account/api/auth-tokens/?name=sntry"@,
            "Then paste it below."@,
        ],
{
    let mut a = String::from_str("Create a token at: https://");
    a.append(host);
    a.append("/settings/account/api/auth-tokens/?name=sntry");
    let b = String::from_str("Then paste it below.");
    let mut r: Vec<String> = Vec::new();
    r.push(a);
    r.push(b);
    assert(views_of(r@) =~= seq![a@, b@]);
    r
}

/// The organization typed at the prompt: trimmed, and nothing when blank.
pub fn prompted_org(raw: &str) -> (r: Option<String>)
    ensures
        spec_trim(raw@).len() == 0 ==> r is None,
        spec_trim(raw@).len() > 0 ==> (r matches Some(s) && s@ == spec_trim(raw@)),
{
    let t = trim(raw);
    if t.as_str().unicode_len() == 0 {
        None
    } else {
        Some(t)
    }
}

/// A token read from standard input (`--token -`), trimmed.
pub fn stdin_token(raw: &str) -> (r: String)
    ensures
        r@ == spec_trim(raw@),
{
    trim(raw)
}

pub open spec fn views_of(v: Seq<String>) -> Seq<Seq<char>> {
    v.map_values(|s: String| s@)
}

/// `auth login` has everything it needs: profile, host and token (the
/// token as stored: read from standard input already when `-` was given).
pub open spec fn login_ready(a: LoginArgs) -> bool {
    &&& a.profile is Some
    &&& a.host is Some
    &&& a.token is Some
}

/// Width of the name column of `auth list`: the longest name, at least 8.
pub open spec fn name_width(s: Seq<(Seq<char>, Profile)>) -> nat
    decreases s.len(),
{
    if s.len() == 0 {
        8
    } else {
        let w = name_width(s.drop_last());
        let l = byte_len(s.last().0);
        if l > w {
            l
        } else {
            w
        }
    }
}

/// Width of the host column of `auth list`: the longest host, at least 10.
pub open spec fn host_width(s: Seq<(Seq<char>, Profile)>) -> nat
    decreases s.len(),
{
    if s.len() == 0 {
        10
    } else {
        let w = host_width(s.drop_last());
        let l = byte_len(s.last().1.host@);
        if l > w {
            l
        } else {
            w
        }
    }
}

/// One line of `auth list`: the active profile marked `*`.
pub open spec fn list_line(name: Seq<char>, p: Profile, active: Option<Seq<char>>, nw: nat, hw: nat) -> Seq<char> {
    (if active == Some(name) {
        "*"@
    } else {
        " "@
    }) + " "@ + pad_right(name, nw) + "  "@ + pad_right(p.host@, hw) + "  (org: "@ + match p.org {
        Some(o) => o@,
        None => "-"@,
    } + ")"@
}

/// The lines of `auth list`, in name order.
pub open spec fn list_lines(s: Seq<(Seq<char>, Profile)>, active: Option<Seq<char>>) -> Seq<Seq<char>> {
    Seq::new(s.len(), |i: int| list_line(s[i].0, s[i].1, active, name_width(s), host_width(s)))
}

/// The lines of `auth status` for resolved credentials or for the error.
pub open spec fn status_lines(cfg: Config, env: EnvOverrides, path: Seq<char>) -> Seq<Seq<char>> {
    let name = chosen_profile(cfg, None, env);
    let file = file_profile(cfg, name);
    match spec_token(file, env) {
        Some(t) => seq![
            "Profile:    "@ + name,
            "Host:       "@ + spec_host(file, env),
            "Org:        "@ + match spec_org(file, None, env) {
                Some(o) => o,
                None => "(none)"@,
            },
            "Auth token: "@ + spec_mask_token(t),
            "Config:     "@ + path,
        ],
        None => seq![
            "Not authenticated: "@ + AuthError::NotAuthenticated.spec_message(),
            "Config:     "@ + path,
        ],
    }
}

fn list_output(cfg: &Config) -> (r: Vec<String>)
    requires
        cfg.profiles.ordered().len() > 0,
    ensures
        views_of(r@) == list_lines(cfg.profiles.ordered(), opt_text(cfg.default_profile)),
{
    let ghost s = cfg.profiles.ordered();
    let n = cfg.profiles.len();
    let mut nw: usize = 8;
    let mut hw: usize = 10;
    let mut i: usize = 0;
    while i < n
        invariant
            n == s.len(),
            s == cfg.profiles.ordered(),
            i <= n,
            nw == name_width(s.subrange(0, i as int)),
            hw == host_width(s.subrange(0, i as int)),
        decreases n - i,
    {
        let (name, p) = cfg.profiles.entry(i);
        let l = name.as_str().len();
        let h = p.host.as_str().len();
        proof {
            let sub = s.subrange(0, i + 1);
            assert(sub.drop_last() =~= s.subrange(0, i as int));
            assert(sub.last() == s[i as int]);
        }
        if l > nw {
            nw = l;
        }
        if h > hw {
            hw = h;
        }
        i = i + 1;
    }
    assert(s.subrange(0, n as int) =~= s);
    let mut out: Vec<String> = Vec::new();
    let mut i: usize = 0;
    while i < n
        invariant
            n == s.len(),
            s == cfg.profiles.ordered(),
            nw == name_width(s),
            hw == host_width(s),
            i <= n,
            out@.len() == i,
            forall|k: int| 0 <= k < i ==> (#[trigger] out@[k])@ == list_line(
                s[k].0,
                s[k].1,
                opt_text(cfg.default_profile),
                name_width(s),
                host_width(s),
            ),
        decreases n - i,
    {
        let (name, p) = cfg.profiles.entry(i);
        let active = match &cfg.default_profile {
            Some(d) => eq_str(d.as_str(), name.as_str()),
            None => false,
        };
        let mut line = String::from_str(if active {
            "*"
        } else {
            " "
        });
        line.append(" ");
        push_padded(&mut line, name.as_str(), nw);
        line.append("  ");
        push_padded(&mut line, p.host.as_str(), hw);
        line.append("  (org: ");
        match &p.org {
            Some(o) => line.append(o.as_str()),
            None => line.append("-"),
        }
        line.append(")");
        out.push(line);
        i = i + 1;
    }
    assert(views_of(out@) =~= list_lines(s, opt_text(cfg.default_profile)));
    out
}

fn status_output(cfg: &Config, env: &EnvOverrides, path: &str) -> (r: Vec<String>)
    ensures
        views_of(r@) == status_lines(*cfg, *env, path@),
{
    let mut out: Vec<String> = Vec::new();
    match resolve(cfg, None, None, env) {
        Ok(r) => {
            let mut a = String::from_str("Profile:    ");
            a.append(r.profile_name.as_str());
            let mut b = String::from_str("Host:       ");
            b.append(r.host.as_str());
            let mut c = String::from_str("Org:        ");
            match &r.org {
                Some(o) => c.append(o.as_str()),
                None => c.append("(none)"),
            }
            let mut d = String::from_str("Auth token: ");
            let masked = mask_token(r.auth_token.as_str());
            d.append(masked.as_str());
            let mut e = String::from_str("Config:     ");
            e.append(path);
            out.push(a);
            out.push(b);
            out.push(c);
            out.push(d);
            out.push(e);
            assert(views_of(out@) =~= status_lines(*cfg, *env, path@));
        },
        Err(err) => {
            let mut a = String::from_str("Not authenticated: ");
            let m = err.message();
            a.append(m.as_str());
            let mut e = String::from_str("Config:     ");
            e.append(path);
            out.push(a);
            out.push(e);
            assert(views_of(out@) =~= status_lines(*cfg, *env, path@));
        },
    }
    out
}

/// Runs an `auth` subcommand on the loaded configuration. `config_path` is
/// how the file's path is shown; `env` holds the credential variables.
pub fn run(args: AuthArgs, cfg: Config, env: &EnvOverrides, config_path: &str) -> (r: Result<
    AuthOutcome,
    AuthCmdError,
>)
    requires
        args.cmd matches AuthCmd::Login(a) ==> login_ready(a),
    ensures
        match args.cmd {
            AuthCmd::Login(a) => {
                let name = a.profile.unwrap()@;
                r matches Ok(o) && o.file is Save
                    && o.config.profiles@ == cfg.profiles@.insert(name, Profile { host: a.host.unwrap(), org: a.org, auth_token: a.token.unwrap() })
                    && opt_text(o.config.default_profile) == match cfg.default_profile {
                        Some(d) => Some(d@),
                        None => Some(name),
                    }
                    && o.config.default_output == cfg.default_output
                    && views_of(o.stdout@) == seq!["Wrote profile '"@ + name + "' to "@ + config_path@]
                    && o.stderr@.len() == 0
            },
            AuthCmd::Logout(a) => if a.all {
                r matches Ok(o) && o.config.profiles@ == Map::<Seq<char>, Profile>::empty()
                    && o.config.default_profile is None
                    && o.config.default_output == cfg.default_output
                    && o.stderr@.len() == 0
                    && if cfg.default_output is None {
                        o.file is Remove && views_of(o.stdout@) == seq![
                            "Removed all profiles ("@ + config_path@ + " deleted)."@,
                        ]
                    } else {
                        o.file is Save && views_of(o.stdout@) == seq!["Removed all profiles."@]
                    }
            } else {
                let target = match a.profile {
                    Some(p) => Some(p@),
                    None => opt_text(cfg.default_profile),
                };
                match target {
                    None => r matches Err(AuthCmdError::NoProfileSpecified),
                    Some(t) => if !cfg.profiles@.contains_key(t) {
                        r matches Err(AuthCmdError::ProfileNotFound { name: n }) && n@ == t
                    } else {
                        r matches Ok(o) && o.config.profiles@ == cfg.profiles@.remove(t)
                            && o.config.default_output == cfg.default_output
                            && (if opt_text(cfg.default_profile) == Some(t) {
                                match o.config.default_profile {
                                    None => o.config.profiles@ == Map::<Seq<char>, Profile>::empty(),
                                    Some(d) => o.config.profiles@.contains_key(d@) && forall|x: Seq<char>|
                                        #[trigger] o.config.profiles@.contains_key(x) && x != d@ ==> key_lt(d@, x),
                                }
                            } else {
                                o.config.default_profile == cfg.default_profile
                            })
                            && (if o.config.spec_is_empty() {
                                o.file is Remove
                            } else {
                                o.file is Save
                            })
                            && views_of(o.stdout@) == seq!["Removed profile '"@ + t + "'."@]
                            && o.stderr@.len() == 0
                    },
                }
            },
            AuthCmd::Use(a) => if cfg.profiles@.contains_key(a.name@) {
                r matches Ok(o) && o.config.profiles@ == cfg.profiles@
                    && opt_text(o.config.default_profile) == Some(a.name@)
                    && o.config.default_output == cfg.default_output
                    && o.file is Save
                    && views_of(o.stdout@) == seq!["Switched to profile: "@ + a.name@]
                    && o.stderr@.len() == 0
            } else {
                r matches Err(AuthCmdError::UnknownProfile { name: n }) && n@ == a.name@
            },
            AuthCmd::List => r matches Ok(o) && o.file is Keep && o.config == cfg && if cfg.profiles.ordered().len() == 0 {
                o.stdout@.len() == 0 && views_of(o.stderr@) == seq![
                    "No profiles configured. Run 'sntry auth login' to create one."@,
                ]
            } else {
                views_of(o.stdout@) == list_lines(cfg.profiles.ordered(), opt_text(cfg.default_profile))
                    && o.stderr@.len() == 0
            },
            AuthCmd::Status => r matches Ok(o) && o.file is Keep && o.config == cfg && views_of(o.stdout@)
                == status_lines(cfg, *env, config_path@) && o.stderr@.len() == 0,
        },
{
    let mut cfg = cfg;
    match args.cmd {
        AuthCmd::Login(a) => {
            let name = match a.profile {
                Some(p) => p,
                None => String::new(),
            };
            let host = match a.host {
                Some(h) => h,
                None => String::new(),
            };
            let token = match a.token {
                Some(t) => t,
                None => String::new(),
            };
            let mut line = String::from_str("Wrote profile '");
            line.append(name.as_str());
            line.append("' to ");
            line.append(config_path);
            if cfg.default_profile.is_none() {
                cfg.default_profile = Some(name.clone());
            }
            cfg.profiles.insert(name, Profile { host, org: a.org, auth_token: token });
            let mut stdout: Vec<String> = Vec::new();
            stdout.push(line);
            assert(views_of(stdout@) =~= seq![stdout@[0]@]);
            Ok(AuthOutcome { config: cfg, file: FileAction::Save, stdout, stderr: Vec::new() })
        },
        AuthCmd::Logout(a) => {
            if a.all {
                cfg.profiles.clear();
                cfg.default_profile = None;
                let mut stdout: Vec<String> = Vec::new();
                if cfg.is_empty() {
                    let mut line = String::from_str("Removed all profiles (");
                    line.append(config_path);
                    line.append(" deleted).");
                    stdout.push(line);
                    assert(views_of(stdout@) =~= seq![stdout@[0]@]);
                    return Ok(AuthOutcome { config: cfg, file: FileAction::Remove, stdout, stderr: Vec::new() });
                } else {
                    stdout.push(String::from_str("Removed all profiles."));
                    assert(views_of(stdout@) =~= seq![stdout@[0]@]);
                    return Ok(AuthOutcome { config: cfg, file: FileAction::Save, stdout, stderr: Vec::new() });
                }
            }
            let target: String = match a.profile {
                Some(p) => p,
                None => match &cfg.default_profile {
                    Some(d) => d.clone(),
                    None => {
                        return Err(AuthCmdError::NoProfileSpecified);
                    },
                },
            };
            if cfg.profiles.remove(target.as_str()).is_none() {
                return Err(AuthCmdError::ProfileNotFound { name: target });
            }
            let was_default = match &cfg.default_profile {
                Some(d) => eq_str(d.as_str(), target.as_str()),
                None => false,
            };
            if was_default {
                cfg.default_profile = cfg.profiles.first_key();
            }
            let file = if cfg.is_empty() {
                FileAction::Remove
            } else {
                FileAction::Save
            };
            let mut line = String::from_str("Removed profile '");
            line.append(target.as_str());
            line.append("'.");
            let mut stdout: Vec<String> = Vec::new();
            stdout.push(line);
            assert(views_of(stdout@) =~= seq![stdout@[0]@]);
            Ok(AuthOutcome { config: cfg, file, stdout, stderr: Vec::new() })
        },
        AuthCmd::Use(a) => {
            if !cfg.profiles.contains_key(a.name.as_str()) {
                return Err(AuthCmdError::UnknownProfile { name: a.name });
            }
            let mut line = String::from_str("Switched to profile: ");
            line.append(a.name.as_str());
            cfg.default_profile = Some(a.name);
            let mut stdout: Vec<String> = Vec::new();
            stdout.push(line);
            assert(views_of(stdout@) =~= seq![stdout@[0]@]);
            Ok(AuthOutcome { config: cfg, file: FileAction::Save, stdout, stderr: Vec::new() })
        },
        AuthCmd::List => {
            if cfg.profiles.is_empty() {
                let mut stderr: Vec<String> = Vec::new();
                stderr.push(String::from_str("No profiles configured. Run 'sntry auth login' to create one."));
                assert(views_of(stderr@) =~= seq![stderr@[0]@]);
                return Ok(AuthOutcome { config: cfg, file: FileAction::Keep, stdout: Vec::new(), stderr });
            }
            let stdout = list_output(&cfg);
            Ok(AuthOutcome { config: cfg, file: FileAction::Keep, stdout, stderr: Vec::new() })
        },
        AuthCmd::Status => {
            let stdout = status_output(&cfg, env, config_path);
            Ok(AuthOutcome { config: cfg, file: FileAction::Keep, stdout, stderr: Vec::new() })
        },
    }
}

} // verus!
