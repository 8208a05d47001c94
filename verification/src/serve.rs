use vstd::prelude::*;
use crate::config::lookup;
use crate::config::{join_path, ConfigEnvironment, resolved_model_from_env,
    resolve_local_sidecar_active_model_from_env};
use crate::env_file::{env_error_message, lines, pair_views, parse_env_assignments, parse_env_lines};
use crate::error::{IoError, IoErrorKind};
use crate::text::{
    append_chars, append_str, chars_eq, chars_of, decimal, decimal_chars, string_of, trim,
    trim_chars, trim_end_char, trim_end_char_exec,
};

verus! {

/// Listen host used when `APP_HOST` is unset.
pub const DEFAULT_APP_HOST: &'static str = "127.0.0.1";

/// Listen port used when `APP_PORT` is unset.
pub const DEFAULT_APP_PORT: u16 = 53210;

/// The environment variables of the `serve` process, in the order they were first set.
#[derive(Debug)]
pub struct ProcessEnv {
    pub vars: Vec<(String, String)>,
}

/// The value of the first entry keyed `name`.
pub open spec fn var_of(vars: Seq<(String, String)>, name: Seq<char>) -> Option<Seq<char>> {
    match lookup(vars, name) {
        Some(v) => Some(v@),
        None => None,
    }
}

pub(crate) proof fn lemma_lookup_replace<T>(v: Seq<(String, T)>, i: int, e: (String, T), k: Seq<char>)
    requires
        0 <= i < v.len(),
        v[i].0@ == e.0@,
        forall|j: int| 0 <= j < i ==> v[j].0@ != e.0@,
    ensures
        lookup(v.update(i, e), k) == if k == e.0@ { Some(e.1) } else { lookup(v, k) },
    decreases i,
{
    if i == 0 {
        assert(v.update(0, e).drop_first() =~= v.drop_first());
    } else {
        let t = v.drop_first();
        assert forall|j: int| 0 <= j < i - 1 implies t[j].0@ != e.0@ by {
            assert(t[j] == v[j + 1]);
        }
        lemma_lookup_replace(t, i - 1, e, k);
        assert(v.update(i, e).drop_first() =~= t.update(i - 1, e));
    }
}

pub(crate) proof fn lemma_lookup_push<T>(v: Seq<(String, T)>, e: (String, T), k: Seq<char>)
    requires
        lookup(v, e.0@) is None,
    ensures
        lookup(v.push(e), k) == if k == e.0@ { Some(e.1) } else { lookup(v, k) },
    decreases v.len(),
{
    if v.len() > 0 {
        assert(v.push(e).drop_first() =~= v.drop_first().push(e));
        lemma_lookup_push(v.drop_first(), e, k);
    } else {
        assert(v.push(e).drop_first() =~= v);
    }
}

impl ProcessEnv {
    /// The value of the variable `name`, if it is set.
    pub open spec fn var(&self, name: Seq<char>) -> Option<Seq<char>> {
        var_of(self.vars@, name)
    }

    /// An environment with no variable set.
    pub fn new() -> (r: Self)
        ensures
            forall|k: Seq<char>| #[trigger] r.var(k) is None,
    {
        ProcessEnv { vars: Vec::new() }
    }

    fn position(&self, name: &Vec<char>) -> (r: Option<usize>)
        ensures
            match r {
                Some(i) => i < self.vars.len() && self.vars@[i as int].0@ == name@ && forall|j: int|
                    0 <= j < i ==> self.vars@[j].0@ != name@,
                None => lookup(self.vars@, name@) is None,
            },
    {
        let mut i: usize = 0;
        while i < self.vars.len()
            invariant
                i <= self.vars.len(),
                forall|j: int| 0 <= j < i ==> self.vars@[j].0@ != name@,
            decreases self.vars.len() - i,
        {
            let key = chars_of(self.vars[i].0.as_str());
            if chars_eq(&key, name) {
                return Some(i);
            }
            i += 1;
        }
        proof {
            lemma_lookup_absent(self.vars@, name@);
        }
        None
    }

    /// The value of the variable `name` (`std::env::var`).
    pub fn get(&self, name: &str) -> (r: Option<String>)
        ensures
            match r {
                Some(v) => self.var(name@) == Some(v@),
                None => self.var(name@) is None,
            },
    {
        let key = chars_of(name);
        match self.position(&key) {
            Some(i) => {
                proof {
                    lemma_lookup_first(self.vars@, i as int, name@);
                }
                Some(self.vars[i].1.clone())
            },
            None => None,
        }
    }

    /// Sets the variable `name` to `value` (`std::env::set_var`).
    pub fn set(&mut self, name: &str, value: &str)
        ensures
            forall|k: Seq<char>| #[trigger]
                final(self).var(k) == if k == name@ { Some(value@) } else { old(self).var(k) },
    {
        crate::config::upsert_entry(&mut self.vars, name.to_owned(), value.to_owned());
    }
}

pub(crate) proof fn lemma_lookup_absent<T>(v: Seq<(String, T)>, k: Seq<char>)
    requires
        forall|j: int| 0 <= j < v.len() ==> v[j].0@ != k,
    ensures
        lookup(v, k) is None,
    decreases v.len(),
{
    if v.len() > 0 {
        let t = v.drop_first();
        assert forall|j: int| 0 <= j < t.len() implies t[j].0@ != k by {
            assert(t[j] == v[j + 1]);
        }
        lemma_lookup_absent(t, k);
    }
}

pub(crate) proof fn lemma_lookup_first<T>(v: Seq<(String, T)>, i: int, k: Seq<char>)
    requires
        0 <= i < v.len(),
        v[i].0@ == k,
        forall|j: int| 0 <= j < i ==> v[j].0@ != k,
    ensures
        lookup(v, k) == Some(v[i].1),
    decreases i,
{
    if i > 0 {
        let t = v.drop_first();
        assert forall|j: int| 0 <= j < i - 1 implies t[j].0@ != k by {
            assert(t[j] == v[j + 1]);
        }
        lemma_lookup_first(t, i - 1, k);
    }
}

/// The message of a required variable that is not set.
pub open spec fn missing_var_message(name: Seq<char>) -> Seq<char> {
    "Missing required environment variable "@ + name + "; source .env or use faus serve --dev"@
}

/// `r` is the value of the required variable `name`, or the error that it is missing.
pub open spec fn required_is(env: ProcessEnv, name: Seq<char>, r: Result<String, IoError>) -> bool {
    match env.var(name) {
        Some(v) => r matches Ok(s) && s@ == v,
        None => r matches Err(e) && e.kind == IoErrorKind::InvalidInput && e.message@
            == missing_var_message(name),
    }
}

/// The value of a variable that `serve` cannot run without.
pub fn required_env(env: &ProcessEnv, name: &str) -> (r: Result<String, IoError>)
    ensures
        required_is(*env, name@, r),
{
    match env.get(name) {
        Some(v) => Ok(v),
        None => {
            let mut m = chars_of("Missing required environment variable ");
            append_str(&mut m, name);
            append_str(&mut m, "; source .env or use faus serve --dev");
            Err(IoError { kind: IoErrorKind::InvalidInput, message: string_of(&m) })
        },
    }
}


/// The listen options of `faus serve`.
#[derive(Debug)]
pub struct ServeArgs {
    /// Rust App API listen host.
    pub host: Option<String>,
    /// Rust App API listen port.
    pub port: Option<u16>,
    /// Use the isolated `.env.dev` runtime profile.
    pub dev: bool,
}

impl ServeArgs {
    /// The options of a plain `faus serve`: no override, default profile.
    pub fn default_runtime() -> (r: Self)
        ensures
            r.host is None,
            r.port is None,
            !r.dev,
    {
        ServeArgs { host: None, port: None, dev: false }
    }
}

/// `--host` and `--port` replace `APP_HOST` and `APP_PORT`; nothing else changes.
pub fn apply_serve_overrides(args: &ServeArgs, env: &mut ProcessEnv)
    ensures
        forall|k: Seq<char>| #[trigger]
            final(env).var(k) == if k == "APP_PORT"@ && args.port is Some {
                Some(decimal(args.port->0 as nat))
            } else if k == "APP_HOST"@ && args.host is Some {
                Some(args.host->0@)
            } else {
                old(env).var(k)
            },
{
    if let Some(host) = &args.host {
        env.set("APP_HOST", host.as_str());
    }
    if let Some(port) = args.port {
        let digits = decimal_chars(port as u64);
        let text = string_of(&digits);
        env.set("APP_PORT", text.as_str());
    }
}

/// `APP_HOST` and `APP_PORT` get their defaults where they are unset.
pub fn ensure_default_app_bind_env(env: &mut ProcessEnv)
    ensures
        forall|k: Seq<char>| #[trigger]
            final(env).var(k) == if k == "APP_PORT"@ && old(env).var("APP_PORT"@) is None {
                Some(decimal(DEFAULT_APP_PORT as nat))
            } else if k == "APP_HOST"@ && old(env).var("APP_HOST"@) is None {
                Some(DEFAULT_APP_HOST@)
            } else {
                old(env).var(k)
            },
{
    proof {
        reveal_strlit("APP_HOST");
        reveal_strlit("APP_PORT");
        assert("APP_HOST"@ != "APP_PORT"@) by {
            assert("APP_HOST"@[4] != "APP_PORT"@[4]);
        }
    }
    if env.get("APP_HOST").is_none() {
        env.set("APP_HOST", DEFAULT_APP_HOST);
    }
    if env.get("APP_PORT").is_none() {
        let digits = decimal_chars(DEFAULT_APP_PORT as u64);
        let text = string_of(&digits);
        env.set("APP_PORT", text.as_str());
    }
}

/// `QDRANT_URL` when it is set and not blank.
pub open spec fn configured_qdrant_url(env: ProcessEnv) -> Option<Seq<char>> {
    match env.var("QDRANT_URL"@) {
        Some(u) => if trim(u).len() > 0 { Some(u) } else { None },
        None => None,
    }
}

/// The collections endpoint of a Qdrant base URL: trailing `/` removed, then `/collections`.
pub open spec fn collections_url(base: Seq<char>) -> Seq<char> {
    trim_end_char(base, '/') + "/collections"@
}

fn collections_url_exec(base: &Vec<char>) -> (r: String)
    ensures
        r@ == collections_url(base@),
{
    let mut t = trim_end_char_exec(base, '/');
    append_str(&mut t, "/collections");
    string_of(&t)
}

/// The Qdrant collections URL. Without a usable `QDRANT_URL`, the base URL is derived from
/// `QDRANT_HOST` and `QDRANT_PORT` and stored back into `QDRANT_URL`.
pub fn qdrant_collections_url(env: &mut ProcessEnv) -> (r: Result<String, IoError>)
    ensures
        match configured_qdrant_url(*old(env)) {
            Some(u) => r matches Ok(s) && s@ == collections_url(u) && *final(env) == *old(env),
            None => match (old(env).var("QDRANT_HOST"@), old(env).var("QDRANT_PORT"@)) {
                (Some(h), Some(p)) => {
                    let u = "http://"@ + h + ":"@ + p;
                    &&& r matches Ok(s) && s@ == collections_url(u)
                    &&& forall|k: Seq<char>| #[trigger]
                        final(env).var(k) == if k == "QDRANT_URL"@ { Some(u) } else { old(env).var(k) }
                },
                (None, _) => required_is(*old(env), "QDRANT_HOST"@, r) && *final(env) == *old(env),
                (Some(_), None) => required_is(*old(env), "QDRANT_PORT"@, r) && *final(env) == *old(env),
            },
        },
{
    if let Some(value) = env.get("QDRANT_URL") {
        let v = chars_of(value.as_str());
        if trim_chars(&v).len() > 0 {
            return Ok(collections_url_exec(&v));
        }
    }
    let host = required_env(env, "QDRANT_HOST")?;
    let port = required_env(env, "QDRANT_PORT")?;
    let mut u = chars_of("http://");
    append_str(&mut u, host.as_str());
    append_str(&mut u, ":");
    append_str(&mut u, port.as_str());
    let value = string_of(&u);
    env.set("QDRANT_URL", value.as_str());
    Ok(collections_url_exec(&u))
}

/// The sidecar health endpoint, from `SIDECAR_HOST` and `SIDECAR_PORT`.
pub fn sidecar_health_url(env: &ProcessEnv) -> (r: Result<String, IoError>)
    ensures
        match (env.var("SIDECAR_HOST"@), env.var("SIDECAR_PORT"@)) {
            (Some(h), Some(p)) => r matches Ok(s) && s@ == "http://"@ + h + ":"@ + p + "/health"@,
            (None, _) => required_is(*env, "SIDECAR_HOST"@, r),
            (Some(_), None) => required_is(*env, "SIDECAR_PORT"@, r),
        },
{
    let host = required_env(env, "SIDECAR_HOST")?;
    let port = required_env(env, "SIDECAR_PORT")?;
    let mut u = chars_of("http://");
    append_str(&mut u, host.as_str());
    append_str(&mut u, ":");
    append_str(&mut u, port.as_str());
    append_str(&mut u, "/health");
    Ok(string_of(&u))
}

/// The flag that repeats the current profile in a suggested command: ` --dev` when
/// `FAUNI_CONFIG_MODE` is `dev`, else nothing.
pub open spec fn env_arg_hint_of(env: ProcessEnv) -> Seq<char> {
    if env.var("FAUNI_CONFIG_MODE"@) == Some("dev"@) { " --dev"@ } else { ""@ }
}

/// See `env_arg_hint_of`.
pub fn env_arg_hint(env: &ProcessEnv) -> (r: String)
    ensures
        r@ == env_arg_hint_of(*env),
{
    let dev = chars_of("dev");
    match env.get("FAUNI_CONFIG_MODE") {
        Some(m) => {
            let mc = chars_of(m.as_str());
            if chars_eq(&mc, &dev) {
                return " --dev".to_owned();
            }
        },
        None => {},
    }
    "".to_owned()
}


fn join_path_exec(dir: &Vec<char>, name: &Vec<char>) -> (r: Vec<char>)
    ensures
        r@ == join_path(dir@, name@),
{
    let mut r = dir.clone();
    if r.len() > 0 && r[r.len() - 1] != '/' {
        r.push('/');
    }
    append_chars(&mut r, name);
    proof {
        reveal_strlit("/");
        if dir@.len() > 0 && dir@.last() != '/' {
            assert(r@ =~= dir@ + "/"@ + name@);
        } else {
            assert(r@ =~= dir@ + name@);
        }
    }
    r
}

/// `path` as seen from `repo_root`: an absolute path stays as it is, a relative one is
/// joined to the root.
pub open spec fn resolved_path(repo_root: Seq<char>, path: Seq<char>) -> Seq<char> {
    if path.len() > 0 && path[0] == '/' { path } else { join_path(repo_root, path) }
}

/// See `resolved_path`.
pub fn resolve_path(repo_root: &str, path: &str) -> (r: String)
    ensures
        r@ == resolved_path(repo_root@, path@),
{
    let p = chars_of(path);
    if p.len() > 0 && p[0] == '/' {
        return string_of(&p);
    }
    let root = chars_of(repo_root);
    string_of(&join_path_exec(&root, &p))
}

/// The env file that `serve` will read, with the profile it stands for and what to say
/// when it is missing.
#[derive(Debug)]
pub struct EnvFileCandidate {
    pub source: String,
    pub mode: String,
    pub missing_message: String,
}

/// An env file that was found, with its profile.
#[derive(Debug)]
pub struct LoadedEnv {
    pub source: String,
    pub mode: String,
}

/// `FAUNI_ENV_FILE` when it is set and not empty.
pub open spec fn custom_env_file(env: ProcessEnv) -> Option<Seq<char>> {
    match env.var("FAUNI_ENV_FILE"@) {
        Some(f) => if f.len() > 0 { Some(f) } else { None },
        None => None,
    }
}

/// `c` is the env file of the profile: `.env.dev` for `--dev`, else `FAUNI_ENV_FILE`
/// where given, else `.env`.
pub open spec fn env_file_candidate_is(repo_root: Seq<char>, dev: bool, env: ProcessEnv, c: EnvFileCandidate) -> bool {
    if dev {
        &&& c.source@ == join_path(repo_root, ".env.dev"@)
        &&& c.mode@ == "dev"@
        &&& c.missing_message@ == ".env.dev is missing; run scripts/local/bootstrap-linux.sh --dev first"@
    } else {
        match custom_env_file(env) {
            Some(f) => {
                &&& c.source@ == resolved_path(repo_root, f)
                &&& c.mode@ == "custom"@
                &&& c.missing_message@ == "FAUNI_ENV_FILE does not exist: "@ + f
            },
            None => {
                &&& c.source@ == join_path(repo_root, ".env"@)
                &&& c.mode@ == "default"@
                &&& c.missing_message@ == ".env is missing; run scripts/local/bootstrap-linux.sh first"@
            },
        }
    }
}

/// The env file for the profile (see `env_file_candidate_is`).
pub fn env_file_candidate(repo_root: &str, dev: bool, env: &ProcessEnv) -> (r: EnvFileCandidate)
    ensures
        env_file_candidate_is(repo_root@, dev, *env, r),
{
    let root = chars_of(repo_root);
    if dev {
        let name = chars_of(".env.dev");
        return EnvFileCandidate {
            source: string_of(&join_path_exec(&root, &name)),
            mode: "dev".to_owned(),
            missing_message: ".env.dev is missing; run scripts/local/bootstrap-linux.sh --dev first".to_owned(),
        };
    }
    if let Some(f) = env.get("FAUNI_ENV_FILE") {
        if chars_of(f.as_str()).len() > 0 {
            let mut m = chars_of("FAUNI_ENV_FILE does not exist: ");
            append_str(&mut m, f.as_str());
            return EnvFileCandidate {
                source: resolve_path(repo_root, f.as_str()),
                mode: "custom".to_owned(),
                missing_message: string_of(&m),
            };
        }
    }
    let name = chars_of(".env");
    EnvFileCandidate {
        source: string_of(&join_path_exec(&root, &name)),
        mode: "default".to_owned(),
        missing_message: ".env is missing; run scripts/local/bootstrap-linux.sh first".to_owned(),
    }
}

/// The candidate env file when it exists, else the `NotFound` error that names it.
pub fn select_env_file(candidate: EnvFileCandidate, exists: bool) -> (r: Result<LoadedEnv, IoError>)
    ensures
        exists ==> (r matches Ok(l) && l.source@ == candidate.source@ && l.mode@ == candidate.mode@),
        !exists ==> (r matches Err(e) && e.kind == IoErrorKind::NotFound && e.message@
            == candidate.missing_message@),
{
    if !exists {
        return Err(IoError { kind: IoErrorKind::NotFound, message: candidate.missing_message });
    }
    Ok(LoadedEnv { source: candidate.source, mode: candidate.mode })
}

/// The last value that `pairs`, applied in order, give to `name`, if any assigns it.
pub open spec fn assigned(pairs: Seq<(Seq<char>, Seq<char>)>, name: Seq<char>) -> Option<Seq<char>>
    decreases pairs.len(),
{
    if pairs.len() == 0 {
        None
    } else if pairs.last().0 == name {
        Some(pairs.last().1)
    } else {
        assigned(pairs.drop_last(), name)
    }
}

/// The value of `name` once `pairs` are applied in order to `env`.
pub open spec fn after_assignments(env: ProcessEnv, pairs: Seq<(Seq<char>, Seq<char>)>, name: Seq<char>) -> Option<
    Seq<char>,
> {
    match assigned(pairs, name) {
        Some(v) => Some(v),
        None => env.var(name),
    }
}

/// The assignments of an env file followed by those that record which file was loaded.
pub open spec fn env_file_assignments(es: Seq<(Seq<char>, Seq<char>)>, loaded: LoadedEnv) -> Seq<
    (Seq<char>, Seq<char>),
> {
    es.push(("FAUNI_CONFIG_SOURCE"@, loaded.source@)).push(("FAUNI_CONFIG_TARGET"@, loaded.source@)).push(
        ("FAUNI_CONFIG_MODE"@, loaded.mode@),
    )
}

fn set_and_note(
    env: &mut ProcessEnv,
    name: &str,
    value: &str,
    Ghost(base): Ghost<ProcessEnv>,
    Ghost(done): Ghost<Seq<(Seq<char>, Seq<char>)>>,
)
    requires
        forall|k: Seq<char>| #[trigger] old(env).var(k) == after_assignments(base, done, k),
    ensures
        forall|k: Seq<char>| #[trigger]
            final(env).var(k) == after_assignments(base, done.push((name@, value@)), k),
{
    env.set(name, value);
    assert(done.push((name@, value@)).drop_last() =~= done);
}

/// Applies the assignments of the env file `contents` to `env`, in order, then records the
/// file and its profile in `FAUNI_CONFIG_SOURCE`, `FAUNI_CONFIG_TARGET` and
/// `FAUNI_CONFIG_MODE`. A file that does not parse changes nothing.
pub fn apply_env_file(env: &mut ProcessEnv, loaded: &LoadedEnv, contents: &str) -> (r: Result<(), IoError>)
    ensures
        match parse_env_lines(lines(contents@)) {
            Ok(es) => r is Ok && forall|k: Seq<char>| #[trigger]
                final(env).var(k) == after_assignments(*old(env), env_file_assignments(es, *loaded), k),
            Err((n, bad)) => r matches Err(e) && e.kind == IoErrorKind::InvalidData && e.message@
                == env_error_message(n, bad) && *final(env) == *old(env),
        },
{
    let parsed = parse_env_assignments(contents)?;
    let ghost base = *env;
    let ghost es = pair_views(parsed@);
    let mut i: usize = 0;
    assert(es.take(0) =~= Seq::<(Seq<char>, Seq<char>)>::empty());
    while i < parsed.len()
        invariant
            i <= parsed.len(),
            es == pair_views(parsed@),
            forall|k: Seq<char>| #[trigger] env.var(k) == after_assignments(base, es.take(i as int), k),
        decreases parsed.len() - i,
    {
        let ghost done = es.take(i as int);
        set_and_note(env, parsed[i].0.as_str(), parsed[i].1.as_str(), Ghost(base), Ghost(done));
        assert(done.push((parsed@[i as int].0@, parsed@[i as int].1@)) =~= es.take(i + 1));
        i += 1;
    }
    assert(es.take(parsed.len() as int) =~= es);
    set_and_note(env, "FAUNI_CONFIG_SOURCE", loaded.source.as_str(), Ghost(base), Ghost(es));
    set_and_note(
        env,
        "FAUNI_CONFIG_TARGET",
        loaded.source.as_str(),
        Ghost(base),
        Ghost(es.push(("FAUNI_CONFIG_SOURCE"@, loaded.source@))),
    );
    set_and_note(
        env,
        "FAUNI_CONFIG_MODE",
        loaded.mode.as_str(),
        Ghost(base),
        Ghost(es.push(("FAUNI_CONFIG_SOURCE"@, loaded.source@)).push(("FAUNI_CONFIG_TARGET"@, loaded.source@))),
    );
    Ok(())
}


/// What a fresh runtime configuration file holds.
pub const RUNTIME_CONFIG_SEED: &'static str = "{}\n";

/// The directories of a runtime generation and its configuration file.
#[derive(Debug)]
pub struct RuntimeGenerationPaths {
    pub app_runtime_dir: String,
    pub qdrant_storage_dir: String,
    pub runtime_config_path: String,
}

/// The runtime directories named by `APP_RUNTIME_DIR` and `QDRANT_STORAGE_DIR`, resolved
/// against the repository root, and `runtime-config.json` in the first.
pub fn runtime_generation_paths(repo_root: &str, env: &ProcessEnv) -> (r: Result<RuntimeGenerationPaths, IoError>)
    ensures
        match (env.var("APP_RUNTIME_DIR"@), env.var("QDRANT_STORAGE_DIR"@)) {
            (Some(a), Some(q)) => r matches Ok(p) && p.app_runtime_dir@ == resolved_path(repo_root@, a)
                && p.qdrant_storage_dir@ == resolved_path(repo_root@, q) && p.runtime_config_path@
                == join_path(resolved_path(repo_root@, a), "runtime-config.json"@),
            (None, _) => r is Err && required_is(*env, "APP_RUNTIME_DIR"@, Err(r->Err_0)),
            (Some(_), None) => r is Err && required_is(*env, "QDRANT_STORAGE_DIR"@, Err(r->Err_0)),
        },
{
    let a = match required_env(env, "APP_RUNTIME_DIR") {
        Ok(a) => a,
        Err(e) => return Err(e),
    };
    let q = match required_env(env, "QDRANT_STORAGE_DIR") {
        Ok(q) => q,
        Err(e) => return Err(e),
    };
    let app_runtime_dir = resolve_path(repo_root, a.as_str());
    let qdrant_storage_dir = resolve_path(repo_root, q.as_str());
    let dir = chars_of(app_runtime_dir.as_str());
    let name = chars_of("runtime-config.json");
    let runtime_config_path = string_of(&join_path_exec(&dir, &name));
    Ok(RuntimeGenerationPaths { app_runtime_dir, qdrant_storage_dir, runtime_config_path })
}

/// What to do before starting services, given what the runtime directories hold.
#[derive(Debug)]
pub enum RuntimeGeneration {
    /// The configuration file exists: only make sure the Qdrant storage directory does.
    Ready,
    /// Nothing is there yet: create both directories and seed the configuration file.
    Initialize,
    /// Data of an older layout is present: stop with this error.
    Refused(IoError),
}

/// The message that asks for the cutover of older runtime data.
pub open spec fn legacy_runtime_message(hint: Seq<char>) -> Seq<char> {
    "Legacy runtime data detected; run scripts/local/cutover-runtime.sh"@ + hint
        + " before starting services"@
}

/// Decides how to prepare the runtime generation: an existing configuration file means it
/// is ready; otherwise any entry in either directory is older data, which is refused.
pub fn runtime_generation_step(
    config_exists: bool,
    runtime_dir_has_entries: bool,
    qdrant_dir_has_entries: bool,
    env: &ProcessEnv,
) -> (r: RuntimeGeneration)
    ensures
        config_exists ==> r is Ready,
        !config_exists && (runtime_dir_has_entries || qdrant_dir_has_entries) ==> (r matches RuntimeGeneration::Refused(e)
            && e.kind == IoErrorKind::InvalidInput && e.message@ == legacy_runtime_message(env_arg_hint_of(*env))),
        !config_exists && !runtime_dir_has_entries && !qdrant_dir_has_entries ==> r is Initialize,
{
    if config_exists {
        return RuntimeGeneration::Ready;
    }
    if runtime_dir_has_entries || qdrant_dir_has_entries {
        let mut m = chars_of("Legacy runtime data detected; run scripts/local/cutover-runtime.sh");
        let hint = env_arg_hint(env);
        append_str(&mut m, hint.as_str());
        append_str(&mut m, " before starting services");
        return RuntimeGeneration::Refused(IoError { kind: IoErrorKind::InvalidInput, message: string_of(&m) });
    }
    RuntimeGeneration::Initialize
}

/// Exports the local sidecar model that the configuration selects as `EMBEDDING_MODEL_ID`
/// and `EMBEDDING_MODEL_REVISION`; when it cannot be resolved, nothing changes.
pub fn ensure_local_sidecar_model_env(env: &mut ProcessEnv, config_env: &ConfigEnvironment) -> (r: Result<(), IoError>)
    ensures
        exists|m: Result<(String, String, String), IoError>|
            #![trigger resolved_model_from_env(*config_env, None, m)]
            resolved_model_from_env(*config_env, None, m) && match m {
                Ok((id, revision, _)) => r is Ok && forall|k: Seq<char>| #[trigger]
                    final(env).var(k) == if k == "EMBEDDING_MODEL_REVISION"@ {
                        Some(revision@)
                    } else if k == "EMBEDDING_MODEL_ID"@ {
                        Some(id@)
                    } else {
                        old(env).var(k)
                    },
                Err(e) => r == Err::<(), IoError>(e) && *final(env) == *old(env),
            },
{
    let m = resolve_local_sidecar_active_model_from_env(config_env);
    match m {
        Ok((id, revision, backend)) => {
            env.set("EMBEDDING_MODEL_ID", id.as_str());
            env.set("EMBEDDING_MODEL_REVISION", revision.as_str());
            let ghost w: Result<(String, String, String), IoError> = Ok((id, revision, backend));
            assert(resolved_model_from_env(*config_env, None, w));
            Ok(())
        },
        Err(e) => {
            let ghost w: Result<(String, String, String), IoError> = Err(e);
            assert(resolved_model_from_env(*config_env, None, w));
            Err(e)
        },
    }
}

/// The address the App API binds: `APP_HOST:APP_PORT`.
pub fn app_bind(env: &ProcessEnv) -> (r: Result<String, IoError>)
    ensures
        match (env.var("APP_HOST"@), env.var("APP_PORT"@)) {
            (Some(h), Some(p)) => r matches Ok(s) && s@ == h + ":"@ + p,
            (None, _) => required_is(*env, "APP_HOST"@, r),
            (Some(_), None) => required_is(*env, "APP_PORT"@, r),
        },
{
    let host = required_env(env, "APP_HOST")?;
    let port = required_env(env, "APP_PORT")?;
    let mut b = chars_of(host.as_str());
    append_str(&mut b, ":");
    append_str(&mut b, port.as_str());
    Ok(string_of(&b))
}

/// The URLs under which a started service answers.
#[derive(Debug)]
pub struct ServeReady {
    pub base_url: String,
    pub health_url: String,
}

/// The base and health URLs of the App API bound at `bind`.
pub fn serve_ready(bind: &str) -> (r: ServeReady)
    ensures
        r.base_url@ == "http://"@ + bind@,
        r.health_url@ == "http://"@ + bind@ + "/health"@,
{
    let mut b = chars_of("http://");
    append_str(&mut b, bind);
    let mut h = b.clone();
    append_str(&mut h, "/health");
    ServeReady { base_url: string_of(&b), health_url: string_of(&h) }
}

} // verus!
