//! The Control server's settings: each comes from its flag, else from its
//! environment variable under the current name, else from the one under the
//! older name; a few settings come in pairs or triples that must be given
//! together.
use vstd::prelude::*;
use crate::models::RegisterUserRequest;
use crate::protocol::opt_view;
use crate::text::{chars_eq, chars_of, copy_string, owned, trim, trim_bounds};

verus! {

/// `char::to_ascii_lowercase`.
pub open spec fn ascii_lower_char(c: char) -> char {
    if 'A' <= c && c <= 'Z' {
        ((c as u32) + 32) as char
    } else {
        c
    }
}

/// `str::to_ascii_lowercase`.
pub open spec fn ascii_lower(s: Seq<char>) -> Seq<char> {
    s.map_values(|c: char| ascii_lower_char(c))
}

/// What a boolean environment variable says: `1`, `true`, `yes` or `on` for
/// yes, `0`, `false`, `no` or `off` for no, in any case and with surrounding
/// whitespace; anything else says nothing.
pub open spec fn bool_setting(value: Seq<char>) -> Option<bool> {
    let v = ascii_lower(trim(value));
    if v == "1"@ || v == "true"@ || v == "yes"@ || v == "on"@ {
        Some(true)
    } else if v == "0"@ || v == "false"@ || v == "no"@ || v == "off"@ {
        Some(false)
    } else {
        None
    }
}

fn lower_char(c: char) -> (r: char)
    ensures
        r == ascii_lower_char(c),
{
    if 'A' <= c && c <= 'Z' {
        let b: u8 = (c as u32 + 32) as u8;
        let r = b as char;
        assert(r == ((c as u32) + 32) as char);
        r
    } else {
        c
    }
}

fn lowered(v: &Vec<char>, start: usize, end: usize) -> (r: Vec<char>)
    requires
        start <= end <= v@.len(),
    ensures
        r@ == ascii_lower(v@.subrange(start as int, end as int)),
{
    let mut r: Vec<char> = Vec::new();
    let mut i: usize = start;
    while i < end
        invariant
            start <= i <= end <= v@.len(),
            r@ == ascii_lower(v@.subrange(start as int, i as int)),
        decreases end - i,
    {
        r.push(lower_char(v[i]));
        assert(ascii_lower(v@.subrange(start as int, i + 1)) =~= ascii_lower(
            v@.subrange(start as int, i as int),
        ).push(ascii_lower_char(v@[i as int])));
        i = i + 1;
    }
    r
}

fn is_word(v: &Vec<char>, word: &str) -> (r: bool)
    ensures
        r == (v@ == word@),
{
    let w = chars_of(word);
    chars_eq(v, &w)
}

/// What a boolean environment variable's value says, if anything.
pub fn parse_bool_setting(value: &str) -> (r: Option<bool>)
    ensures
        r == bool_setting(value@),
{
    let v = chars_of(value);
    let (a, b) = trim_bounds(&v);
    let w = lowered(&v, a, b);
    if is_word(&w, "1") || is_word(&w, "true") || is_word(&w, "yes") || is_word(&w, "on") {
        Some(true)
    } else if is_word(&w, "0") || is_word(&w, "false") || is_word(&w, "no") || is_word(&w, "off") {
        Some(false)
    } else {
        None
    }
}

/// A value unless it is empty.
pub open spec fn nonempty(v: Option<Seq<char>>) -> Option<Seq<char>> {
    match v {
        Some(s) => if s.len() == 0 {
            None
        } else {
            Some(s)
        },
        None => None,
    }
}

/// An environment variable read under its current and its older name.
#[derive(Clone, Debug)]
pub struct EnvAlias {
    pub canonical: Option<String>,
    pub legacy: Option<String>,
}

impl EnvAlias {
    /// The variable under neither name.
    pub fn unset() -> (r: Self)
        ensures
            r.canonical is None && r.legacy is None,
    {
        EnvAlias { canonical: None, legacy: None }
    }

    /// The value under the current name if it is not empty, else the one
    /// under the older name if that is not empty.
    pub open spec fn value_spec(&self) -> Option<Seq<char>> {
        match nonempty(opt_view(self.canonical)) {
            Some(v) => Some(v),
            None => nonempty(opt_view(self.legacy)),
        }
    }

    pub fn value(&self) -> (r: Option<String>)
        ensures
            opt_view(r) == self.value_spec(),
    {
        match &self.canonical {
            Some(v) => if !v.as_str().is_empty() {
                return Some(copy_string(v));
            },
            None => {},
        }
        match &self.legacy {
            Some(v) => if !v.as_str().is_empty() {
                Some(copy_string(v))
            } else {
                None
            },
            None => None,
        }
    }
}

/// The environment that the Control server reads its settings from.
#[derive(Clone, Debug)]
pub struct ControlServerEnv {
    pub token_secret: EnvAlias,
    pub state_db: EnvAlias,
    /// Whether the current strict-auth variable is set at all.
    pub strict_auth_set: bool,
    /// The older strict-auth variable, if set.
    pub legacy_strict_auth: Option<String>,
    pub public_url: EnvAlias,
    pub github_client_id: EnvAlias,
    pub github_client_secret: EnvAlias,
    pub github_redirect_url: EnvAlias,
    pub admin_email: EnvAlias,
    pub admin_password: EnvAlias,
    pub admin_display_name: EnvAlias,
}

impl ControlServerEnv {
    /// An environment that sets none of the variables.
    pub fn empty() -> (r: Self)
        ensures
            r.token_secret.value_spec() is None,
            r.state_db.value_spec() is None,
            !r.strict_auth_set,
            r.legacy_strict_auth is None,
            r.public_url.value_spec() is None,
            r.github_client_id.value_spec() is None,
            r.github_client_secret.value_spec() is None,
            r.github_redirect_url.value_spec() is None,
            r.admin_email.value_spec() is None,
            r.admin_password.value_spec() is None,
            r.admin_display_name.value_spec() is None,
    {
        ControlServerEnv {
            token_secret: EnvAlias::unset(),
            state_db: EnvAlias::unset(),
            strict_auth_set: false,
            legacy_strict_auth: None,
            public_url: EnvAlias::unset(),
            github_client_id: EnvAlias::unset(),
            github_client_secret: EnvAlias::unset(),
            github_redirect_url: EnvAlias::unset(),
            admin_email: EnvAlias::unset(),
            admin_password: EnvAlias::unset(),
            admin_display_name: EnvAlias::unset(),
        }
    }
}

/// The GitHub sign-in settings.
#[derive(Clone, Debug)]
pub struct GitHubOAuthConfig {
    pub public_url: String,
    pub client_id: String,
    pub client_secret: String,
    pub redirect_url: Option<String>,
}

/// The Control server's command-line arguments.
#[derive(Clone, Debug)]
pub struct Cli {
    pub listen: String,
    pub token_secret: Option<String>,
    pub relay_addr: String,
    pub punch_addr: String,
    pub state_db: Option<String>,
    pub strict_auth: bool,
    pub public_url: Option<String>,
    pub github_client_id: Option<String>,
    pub github_client_secret: Option<String>,
    pub github_redirect_url: Option<String>,
    pub github_curl_command: Option<String>,
    pub print_admin_token: Option<String>,
    pub print_relay_token: Option<String>,
    pub bootstrap_admin_email: Option<String>,
    pub bootstrap_admin_password: Option<String>,
    pub bootstrap_admin_display_name: Option<String>,
}

/// A flag's value, else the environment's.
pub open spec fn setting(flag: Option<String>, env: EnvAlias) -> Option<Seq<char>> {
    match flag {
        Some(v) => Some(v@),
        None => env.value_spec(),
    }
}

fn setting_of(flag: &Option<String>, env: &EnvAlias) -> (r: Option<String>)
    ensures
        opt_view(r) == setting(*flag, *env),
{
    match flag {
        Some(v) => Some(copy_string(v)),
        None => env.value(),
    }
}

pub open spec fn strict_auth_spec(flag: bool, env: ControlServerEnv) -> bool {
    if flag || env.strict_auth_set {
        flag
    } else {
        match env.legacy_strict_auth {
            Some(v) => bool_setting(v@) == Some(true),
            None => false,
        }
    }
}

pub open spec fn bootstrap_admin_spec(cli: Cli, env: ControlServerEnv) -> Result<
    Option<(Seq<char>, Seq<char>, Seq<char>)>,
    Seq<char>,
> {
    let name = match setting(cli.bootstrap_admin_display_name, env.admin_display_name) {
        Some(n) => n,
        None => "Admin"@,
    };
    match (
        setting(cli.bootstrap_admin_email, env.admin_email),
        setting(cli.bootstrap_admin_password, env.admin_password),
    ) {
        (None, None) => Ok(None),
        (Some(email), Some(password)) => Ok(Some((email, password, name))),
        _ => Err("--bootstrap-admin-email and --bootstrap-admin-password must be provided together"@),
    }
}

pub open spec fn github_oauth_spec(cli: Cli, env: ControlServerEnv) -> Result<
    Option<(Seq<char>, Seq<char>, Seq<char>, Option<Seq<char>>)>,
    Seq<char>,
> {
    match (
        setting(cli.public_url, env.public_url),
        setting(cli.github_client_id, env.github_client_id),
        setting(cli.github_client_secret, env.github_client_secret),
    ) {
        (None, None, None) => Ok(None),
        (Some(u), Some(i), Some(s)) => Ok(
            Some((u, i, s, setting(cli.github_redirect_url, env.github_redirect_url))),
        ),
        _ => Err(
            "--public-url, --github-client-id, and --github-client-secret must be provided together"@,
        ),
    }
}

impl Cli {
    /// The token secret; the server cannot run without one.
    pub fn token_secret(&self, env: &ControlServerEnv) -> (r: Result<String, String>)
        ensures
            match setting(self.token_secret, env.token_secret) {
                Some(v) => r matches Ok(s) && s@ == v,
                None => r matches Err(m) && m@ == "--token-secret is required"@,
            },
    {
        match setting_of(&self.token_secret, &env.token_secret) {
            Some(v) => Ok(v),
            None => Err(owned("--token-secret is required")),
        }
    }

    /// Where the state database is, if the state is kept in one.
    pub fn state_db(&self, env: &ControlServerEnv) -> (r: Option<String>)
        ensures
            opt_view(r) == setting(self.state_db, env.state_db),
    {
        setting_of(&self.state_db, &env.state_db)
    }

    /// Whether sign-in is strict: the flag, or the current variable, decides
    /// when either is given; else the older variable, read as a boolean.
    pub fn strict_auth(&self, env: &ControlServerEnv) -> (r: bool)
        ensures
            r == strict_auth_spec(self.strict_auth, *env),
    {
        if self.strict_auth || env.strict_auth_set {
            return self.strict_auth;
        }
        match &env.legacy_strict_auth {
            Some(v) => match parse_bool_setting(v.as_str()) {
                Some(b) => b,
                None => false,
            },
            None => false,
        }
    }

    pub fn public_url(&self, env: &ControlServerEnv) -> (r: Option<String>)
        ensures
            opt_view(r) == setting(self.public_url, env.public_url),
    {
        setting_of(&self.public_url, &env.public_url)
    }

    pub fn github_client_id(&self, env: &ControlServerEnv) -> (r: Option<String>)
        ensures
            opt_view(r) == setting(self.github_client_id, env.github_client_id),
    {
        setting_of(&self.github_client_id, &env.github_client_id)
    }

    pub fn github_client_secret(&self, env: &ControlServerEnv) -> (r: Option<String>)
        ensures
            opt_view(r) == setting(self.github_client_secret, env.github_client_secret),
    {
        setting_of(&self.github_client_secret, &env.github_client_secret)
    }

    pub fn github_redirect_url(&self, env: &ControlServerEnv) -> (r: Option<String>)
        ensures
            opt_view(r) == setting(self.github_redirect_url, env.github_redirect_url),
    {
        setting_of(&self.github_redirect_url, &env.github_redirect_url)
    }

    pub fn bootstrap_admin_email(&self, env: &ControlServerEnv) -> (r: Option<String>)
        ensures
            opt_view(r) == setting(self.bootstrap_admin_email, env.admin_email),
    {
        setting_of(&self.bootstrap_admin_email, &env.admin_email)
    }

    pub fn bootstrap_admin_password(&self, env: &ControlServerEnv) -> (r: Option<String>)
        ensures
            opt_view(r) == setting(self.bootstrap_admin_password, env.admin_password),
    {
        setting_of(&self.bootstrap_admin_password, &env.admin_password)
    }

    /// The first admin's display name; `Admin` when none is given.
    pub fn bootstrap_admin_display_name(&self, env: &ControlServerEnv) -> (r: String)
        ensures
            r@ == match setting(self.bootstrap_admin_display_name, env.admin_display_name) {
                Some(n) => n,
                None => "Admin"@,
            },
    {
        match setting_of(&self.bootstrap_admin_display_name, &env.admin_display_name) {
            Some(n) => n,
            None => owned("Admin"),
        }
    }

    /// The first admin to create: email and password together, or neither.
    pub fn bootstrap_admin_request(&self, env: &ControlServerEnv) -> (r: Result<
        Option<RegisterUserRequest>,
        String,
    >)
        ensures
            match bootstrap_admin_spec(*self, *env) {
                Ok(None) => r matches Ok(None),
                Ok(Some((e, p, n))) => r matches Ok(Some(q)) && q.email@ == e && q.password@ == p
                    && q.display_name@ == n,
                Err(m) => r matches Err(x) && x@ == m,
            },
    {
        match (self.bootstrap_admin_email(env), self.bootstrap_admin_password(env)) {
            (None, None) => Ok(None),
            (Some(email), Some(password)) => Ok(
                Some(
                    RegisterUserRequest {
                        email,
                        password,
                        display_name: self.bootstrap_admin_display_name(env),
                    },
                ),
            ),
            _ => Err(
                owned(
                    "--bootstrap-admin-email and --bootstrap-admin-password must be provided together",
                ),
            ),
        }
    }

    /// The GitHub sign-in settings: the public URL, client id and client
    /// secret together, or none of them.
    pub fn github_oauth_config(&self, env: &ControlServerEnv) -> (r: Result<
        Option<GitHubOAuthConfig>,
        String,
    >)
        ensures
            match github_oauth_spec(*self, *env) {
                Ok(None) => r matches Ok(None),
                Ok(Some((u, i, s, d))) => r matches Ok(Some(c)) && c.public_url@ == u
                    && c.client_id@ == i && c.client_secret@ == s && opt_view(c.redirect_url) == d,
                Err(m) => r matches Err(x) && x@ == m,
            },
    {
        match (self.public_url(env), self.github_client_id(env), self.github_client_secret(env)) {
            (None, None, None) => Ok(None),
            (Some(public_url), Some(client_id), Some(client_secret)) => Ok(
                Some(
                    GitHubOAuthConfig {
                        public_url,
                        client_id,
                        client_secret,
                        redirect_url: self.github_redirect_url(env),
                    },
                ),
            ),
            _ => Err(
                owned(
                    "--public-url, --github-client-id, and --github-client-secret must be provided together",
                ),
            ),
        }
    }

    /// At most one token can be printed per run.
    pub fn check_print_token_args(&self) -> (r: Result<(), String>)
        ensures
            r is Ok <==> !(self.print_admin_token is Some && self.print_relay_token is Some),
            r matches Err(m) ==> m@
                == "--print-admin-token and --print-relay-token cannot be used together"@,
    {
        if self.print_admin_token.is_some() && self.print_relay_token.is_some() {
            Err(owned("--print-admin-token and --print-relay-token cannot be used together"))
        } else {
            Ok(())
        }
    }
}

} // verus!
