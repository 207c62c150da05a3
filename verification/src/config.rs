//! Runtime configuration: command-line flags and values, environment-variable
//! semantics, persisted settings and their update rule, and the precedence
//! chain that yields the TCP bind address and token.

use vstd::prelude::*;
use vstd::string::StrSliceExecFns;
use crate::text::{lower_of, lowercase, str_eq, to_chars};

verus! {

/// The default TCP bind address: loopback on the fixed port.
pub open spec fn spec_default_bind() -> Seq<char> {
    "127.0.0.1:4799"@
}

/// The persisted settings: a flat object of optional fields, read once at
/// startup.
pub struct AppSettings {
    pub local_token: Option<String>,
    pub tcp_bind: Option<String>,
    pub headless: Option<bool>,
    pub auto_update: Option<bool>,
}

impl AppSettings {
    /// Settings with nothing set.
    pub fn empty() -> (r: AppSettings)
        ensures
            r.local_token is None,
            r.tcp_bind is None,
            r.headless is None,
            r.auto_update is None,
    {
        AppSettings { local_token: None, tcp_bind: None, headless: None, auto_update: None }
    }
}

impl Default for AppSettings {
    fn default() -> (r: AppSettings)
        ensures
            r.local_token is None,
            r.tcp_bind is None,
            r.headless is None,
            r.auto_update is None,
    {
        AppSettings::empty()
    }
}

/// A partial settings change: absent fields are left as they are.
pub struct AppSettingsUpdate {
    pub local_token: Option<String>,
    pub tcp_bind: Option<String>,
    pub headless: Option<bool>,
    pub auto_update: Option<bool>,
}

/// Apply a partial update: every present field replaces the stored one, every
/// absent field leaves it unchanged.
pub fn apply_settings_update(settings: &mut AppSettings, update: AppSettingsUpdate)
    ensures
        final(settings).local_token == if update.local_token is Some {
            update.local_token
        } else {
            old(settings).local_token
        },
        final(settings).tcp_bind == if update.tcp_bind is Some {
            update.tcp_bind
        } else {
            old(settings).tcp_bind
        },
        final(settings).headless == if update.headless is Some {
            update.headless
        } else {
            old(settings).headless
        },
        final(settings).auto_update == if update.auto_update is Some {
            update.auto_update
        } else {
            old(settings).auto_update
        },
{
    if update.local_token.is_some() {
        settings.local_token = update.local_token;
    }
    if update.tcp_bind.is_some() {
        settings.tcp_bind = update.tcp_bind;
    }
    if update.headless.is_some() {
        settings.headless = update.headless;
    }
    if update.auto_update.is_some() {
        settings.auto_update = update.auto_update;
    }
}

/// Some argument equals `flag` exactly.
pub open spec fn spec_has_flag(args: Seq<String>, flag: Seq<char>) -> bool {
    exists|i: int| 0 <= i < args.len() && args[i]@ == flag
}

/// Whether the flag occurs among the arguments.
pub fn has_flag(args: &Vec<String>, flag: &str) -> (r: bool)
    ensures
        r == spec_has_flag(args@, flag@),
{
    let mut i: usize = 0;
    while i < args.len()
        invariant
            i <= args@.len(),
            forall|k: int| 0 <= k < i ==> args@[k]@ != flag@,
        decreases args@.len() - i,
    {
        if str_eq(args[i].as_str(), flag) {
            proof {
                assert(args@[i as int]@ == flag@);
            }
            return true;
        }
        i = i + 1;
    }
    false
}

/// `arg` is `prefix` followed by `=` and a (possibly empty) value.
pub open spec fn spec_arg_match(arg: Seq<char>, prefix: Seq<char>) -> bool {
    arg.len() > prefix.len() && arg.take(prefix.len() as int + 1) == prefix.push('=')
}

fn arg_value_of(arg: &str, prefix: &str) -> (r: Option<String>)
    ensures
        r is Some <==> spec_arg_match(arg@, prefix@),
        r is Some ==> r->0@ == arg@.skip(prefix@.len() as int + 1),
{
    let av = to_chars(arg);
    let pv = to_chars(prefix);
    if av.len() <= pv.len() {
        proof {
            assert(!spec_arg_match(arg@, prefix@));
        }
        return None;
    }
    let mut i: usize = 0;
    while i < pv.len()
        invariant
            av@ == arg@,
            pv@ == prefix@,
            av@.len() > pv@.len(),
            i <= pv@.len(),
            forall|k: int| 0 <= k < i ==> av@[k] == pv@[k],
        decreases pv@.len() - i,
    {
        if av[i] != pv[i] {
            proof {
                assert(arg@.take(prefix@.len() as int + 1)[i as int] == arg@[i as int]);
                assert(prefix@.push('=')[i as int] == prefix@[i as int]);
            }
            return None;
        }
        i = i + 1;
    }
    if av[pv.len()] != '=' {
        proof {
            let n = prefix@.len() as int;
            assert(arg@.take(n + 1)[n] == arg@[n]);
            assert(prefix@.push('=')[n] == '=');
        }
        return None;
    }
    proof {
        assert(arg@.take(prefix@.len() as int + 1) =~= prefix@.push('='));
    }
    let val = arg.substring_char(pv.len() + 1, av.len());
    Some(val.to_owned())
}

/// The value of the first `prefix=value` argument, if any.
pub fn get_arg_value(args: &Vec<String>, prefix: &str) -> (r: Option<String>)
    ensures
        match r {
            Some(v) => exists|i: int|
                0 <= i < args@.len() && spec_arg_match(#[trigger] args@[i]@, prefix@) && v@
                    == args@[i]@.skip(prefix@.len() as int + 1) && (forall|k: int|
                    0 <= k < i ==> !spec_arg_match(args@[k]@, prefix@)),
            None => forall|i: int| 0 <= i < args@.len() ==> !spec_arg_match(args@[i]@, prefix@),
        },
{
    let mut i: usize = 0;
    while i < args.len()
        invariant
            i <= args@.len(),
            forall|k: int| 0 <= k < i ==> !spec_arg_match(args@[k]@, prefix@),
        decreases args@.len() - i,
    {
        match arg_value_of(args[i].as_str(), prefix) {
            Some(v) => {
                return Some(v);
            },
            None => {
            },
        }
        i = i + 1;
    }
    None
}

/// An environment value counts as set when it lower-cases to `1`, `true` or
/// `yes`.
pub open spec fn spec_truthy(value: Option<String>) -> bool {
    match value {
        Some(v) => lower_of(v@) == "1"@ || lower_of(v@) == "true"@ || lower_of(v@) == "yes"@,
        None => false,
    }
}

/// Whether an environment value counts as set (see [`spec_truthy`]).
pub fn truthy(value: &Option<String>) -> (r: bool)
    ensures
        r == spec_truthy(*value),
{
    match value {
        Some(v) => {
            let low = lowercase(v.as_str());
            str_eq(low.as_str(), "1") || str_eq(low.as_str(), "true") || str_eq(
                low.as_str(),
                "yes",
            )
        },
        None => false,
    }
}

/// The argument in position one names the startup path, unless it looks like
/// a flag; whether it exists on disk is the caller's to check.
pub fn startup_candidate(args: &Vec<String>) -> (r: Option<String>)
    ensures
        args@.len() < 2 ==> r is None,
        args@.len() >= 2 && args@[1]@.len() > 0 && args@[1]@[0] == '-' ==> r is None,
        args@.len() >= 2 && !(args@[1]@.len() > 0 && args@[1]@[0] == '-') ==> r is Some && r->0@
            == args@[1]@,
{
    if args.len() < 2 {
        return None;
    }
    let cand = to_chars(args[1].as_str());
    if cand.len() > 0 && cand[0] == '-' {
        return None;
    }
    Some(args[1].clone())
}

/// Everything the TCP server is configured from, resolved but not yet parsed
/// as an address.
pub struct TcpResolution {
    pub enabled: bool,
    pub bind_raw: String,
    pub token: Option<String>,
}

/// Resolve the TCP configuration inputs by precedence — command line over
/// environment over persisted setting over the built-in default — and decide
/// whether remote serving is enabled at all.
pub fn resolve_tcp(
    args: &Vec<String>,
    env_bind: Option<String>,
    env_token: Option<String>,
    settings: &AppSettings,
) -> (r: TcpResolution)
    ensures
        r.enabled == (spec_has_flag(args@, "--tcp"@) || (exists|i: int|
            0 <= i < args@.len() && spec_arg_match(#[trigger] args@[i]@, "--tcp-bind"@))
            || env_bind is Some || settings.tcp_bind is Some || settings.local_token is Some),
        // Token precedence: the first `--tcp-token=` argument, else the
        // environment, else the persisted setting.
        ({
            let arg_token_present = exists|i: int|
                0 <= i < args@.len() && spec_arg_match(#[trigger] args@[i]@, "--tcp-token"@);
            &&& (arg_token_present ==> r.token is Some && exists|i: int|
                0 <= i < args@.len() && spec_arg_match(#[trigger] args@[i]@, "--tcp-token"@)
                    && r.token->0@ == args@[i]@.skip("--tcp-token"@.len() as int + 1) && (forall|
                k: int,
            |
                0 <= k < i ==> !spec_arg_match(args@[k]@, "--tcp-token"@)))
            &&& (!arg_token_present && env_token is Some ==> r.token == env_token)
            &&& (!arg_token_present && env_token is None ==> r.token == settings.local_token)
        }),
        // Bind precedence: the first `--tcp-bind=` argument, else the
        // environment, else the persisted setting, else the built-in default.
        ({
            let arg_bind_present = exists|i: int|
                0 <= i < args@.len() && spec_arg_match(#[trigger] args@[i]@, "--tcp-bind"@);
            &&& (arg_bind_present ==> exists|i: int|
                0 <= i < args@.len() && spec_arg_match(#[trigger] args@[i]@, "--tcp-bind"@)
                    && r.bind_raw@ == args@[i]@.skip("--tcp-bind"@.len() as int + 1) && (forall|
                k: int,
            |
                0 <= k < i ==> !spec_arg_match(args@[k]@, "--tcp-bind"@)))
            &&& (!arg_bind_present && env_bind is Some ==> r.bind_raw@ == env_bind->0@)
            &&& (!arg_bind_present && env_bind is None && settings.tcp_bind is Some ==> r.bind_raw@
                == settings.tcp_bind->0@)
            &&& (!arg_bind_present && env_bind is None && settings.tcp_bind is None ==> r.bind_raw@
                == spec_default_bind())
        }),
{
    let bind_arg = get_arg_value(args, "--tcp-bind");
    let token_arg = get_arg_value(args, "--tcp-token");
    let token = match token_arg {
        Some(t) => Some(t),
        None => match env_token {
            Some(t) => Some(t),
            None => crate::engine::clone_opt_string(&settings.local_token),
        },
    };
    let enabled = has_flag(args, "--tcp") || bind_arg.is_some() || env_bind.is_some()
        || settings.tcp_bind.is_some() || settings.local_token.is_some();
    let bind_raw = match bind_arg {
        Some(b) => b,
        None => match env_bind {
            Some(b) => b,
            None => match &settings.tcp_bind {
                Some(b) => b.clone(),
                None => default_bind(),
            },
        },
    };
    TcpResolution { enabled, bind_raw, token }
}

/// The built-in default bind address.
pub fn default_bind() -> (r: String)
    ensures
        r@ == spec_default_bind(),
{
    let s = "127.0.0.1:4799";
    s.to_owned()
}

/// A non-loopback bind address requires a configured token.
pub fn validate_tcp_binding(loopback: bool, token: &Option<String>) -> (r: bool)
    ensures
        r == (loopback || token is Some),
{
    loopback || token.is_some()
}

/// Headless mode: the flag, the environment, or the persisted setting.
pub fn resolve_headless(args: &Vec<String>, env_headless: &Option<String>, settings: &AppSettings)
    -> (r: bool)
    ensures
        r == (spec_has_flag(args@, "--headless"@) || spec_truthy(*env_headless) || (
        settings.headless is Some && settings.headless->0)),
{
    has_flag(args, "--headless") || truthy(env_headless) || (match settings.headless {
        Some(h) => h,
        None => false,
    })
}

/// Auto-update: disabled by flag or environment, else the persisted setting,
/// else on.
pub fn resolve_updater_enabled(
    args: &Vec<String>,
    env_disable: &Option<String>,
    settings: &AppSettings,
) -> (r: bool)
    ensures
        r == (!(spec_has_flag(args@, "--disable-updater"@) || spec_truthy(*env_disable)) && (
        match settings.auto_update {
            Some(a) => a,
            None => true,
        })),
{
    if has_flag(args, "--disable-updater") || truthy(env_disable) {
        return false;
    }
    match settings.auto_update {
        Some(a) => a,
        None => true,
    }
}

} // verus!
