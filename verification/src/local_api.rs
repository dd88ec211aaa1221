//! The local API's access rules and the decision of what to do with its
//! server when the settings change.
use crate::text::{str_eq, strip_prefix};
use vstd::string::StrSliceExecFns;
use vstd::prelude::*;

verus! {

/// Whether `origin` is one of the allowed origins.
pub fn is_origin_allowed(allowed: &[String], origin: &str) -> (r: bool)
    ensures
        r == exists|i: int| 0 <= i < allowed@.len() && (#[trigger] allowed@[i])@ == origin@,
{
    let mut i: usize = 0;
    while i < allowed.len()
        invariant
            i <= allowed@.len(),
            forall|j: int| 0 <= j < i ==> (#[trigger] allowed@[j])@ != origin@,
        decreases allowed@.len() - i,
    {
        if str_eq(allowed[i].as_str(), origin) {
            return true;
        }
        i = i + 1;
    }
    false
}

proof fn lemma_or_xor(d: u8, x: u8, y: u8)
    ensures
        ((d | (x ^ y)) == 0u8) == (d == 0u8 && x == y),
{
    assert(((d | (x ^ y)) == 0u8) == (d == 0u8 && x == y)) by (bit_vector);
}

/// Whether two byte strings are equal, in time that depends only on their
/// lengths.
pub fn constant_time_eq(a: &[u8], b: &[u8]) -> (r: bool)
    ensures
        r == (a@ == b@),
{
    if a.len() != b.len() {
        return false;
    }
    let mut diff: u8 = 0;
    let mut i: usize = 0;
    while i < a.len()
        invariant
            a@.len() == b@.len(),
            i <= a@.len(),
            (diff == 0) == (forall|j: int| 0 <= j < i ==> a@[j] == b@[j]),
        decreases a@.len() - i,
    {
        proof {
            lemma_or_xor(diff, a@[i as int], b@[i as int]);
        }
        diff = diff | (a[i] ^ b[i]);
        proof {
            if diff == 0 {
                assert forall|j: int| 0 <= j < i + 1 implies a@[j] == b@[j] by {}
            }
        }
        i = i + 1;
    }
    proof {
        if diff == 0 {
            assert(a@ =~= b@);
        }
    }
    diff == 0
}

/// The credential a request presents: its `Authorization` header's value
/// without the `Bearer ` scheme, or nothing.
pub open spec fn spec_presented(authorization: Option<Seq<char>>) -> Seq<char> {
    match authorization {
        Some(v) => if v.len() >= 7 && v.subrange(0, 7) == "Bearer "@ {
            v.subrange(7, v.len() as int)
        } else {
            seq![]
        },
        None => seq![],
    }
}

/// The bytes of a text (`str::as_bytes`), which are its UTF-8 encoding.
fn text_bytes(s: &str) -> (r: &[u8])
    ensures
        r@ == vstd::utf8::encode_utf8(s@),
{
    broadcast use vstd::string::group_string_axioms;

    proof {
        vstd::utf8::encode_utf8_decode_utf8(s@);
    }
    s.as_bytes()
}

/// Whether a request is authorized: a token is configured and the request
/// presents it as a bearer credential. `authorization` is the request's
/// `Authorization` header, when it is readable text.
pub fn check_auth(authorization: Option<&str>, token: &str) -> (r: bool)
    ensures
        r == (token@.len() > 0 && spec_presented(
            match authorization {
                Some(v) => Some(v@),
                None => None,
            },
        ) == token@),
{
    proof {
        reveal_strlit("Bearer ");
        reveal_strlit("");
    }
    let provided: &str = match authorization {
        Some(v) => match strip_prefix(v, "Bearer ") {
            Some(rest) => rest,
            None => "",
        },
        None => "",
    };
    if token.unicode_len() == 0 {
        return false;
    }
    let a = text_bytes(provided);
    let b = text_bytes(token);
    let same = constant_time_eq(a, b);
    proof {
        vstd::utf8::encode_utf8_decode_utf8(provided@);
        vstd::utf8::encode_utf8_decode_utf8(token@);
        if provided@ == token@ {
            assert(a@ == b@);
        }
    }
    same
}

/// The local API settings.
#[derive(Debug, Clone)]
pub struct LocalApiSettings {
    pub enabled: bool,
    pub port: u16,
    pub token: String,
    pub allowed_origins: Vec<String>,
}

/// The configuration a running server was started with.
#[derive(Debug, Clone)]
pub struct RunningConfig {
    pub port: u16,
    pub token: String,
    pub allowed_origins: Vec<String>,
}

/// What the manager does to match new settings: keep the running server, or
/// stop whatever runs and then start a new server or record an error.
#[derive(Debug, Clone)]
pub enum ReconcilePlan {
    /// The server runs with the same configuration.
    Keep,
    /// Stop any running server and start one with the settings.
    Restart,
    /// Stop any running server; the settings do not ask for one. The error
    /// says why, when the settings are incomplete.
    Stop { error: Option<String> },
}

/// The server's status as the manager reports it.
#[derive(Debug, Clone)]
pub struct LocalApiStatus {
    pub running: bool,
    pub port: Option<u16>,
    pub error: Option<String>,
}

pub open spec fn spec_should_run(cfg: LocalApiSettings) -> bool {
    cfg.enabled && cfg.token@.len() > 0 && cfg.port > 0
}

pub open spec fn origins_view(v: Seq<String>) -> Seq<Seq<char>> {
    v.map_values(|s: String| s@)
}

fn same_origins(a: &Vec<String>, b: &Vec<String>) -> (r: bool)
    ensures
        r == (origins_view(a@) == origins_view(b@)),
{
    if a.len() != b.len() {
        proof {
            if origins_view(a@) == origins_view(b@) {
                assert(origins_view(a@).len() == origins_view(b@).len());
            }
        }
        return false;
    }
    let mut i: usize = 0;
    while i < a.len()
        invariant
            a@.len() == b@.len(),
            i <= a@.len(),
            forall|j: int| 0 <= j < i ==> a@[j]@ == b@[j]@,
        decreases a@.len() - i,
    {
        if !str_eq(a[i].as_str(), b[i].as_str()) {
            proof {
                if origins_view(a@) == origins_view(b@) {
                    assert(origins_view(a@)[i as int] == origins_view(b@)[i as int]);
                }
            }
            return false;
        }
        i = i + 1;
    }
    proof {
        assert(origins_view(a@) =~= origins_view(b@));
    }
    true
}

/// Whether the server running with `running`, if any, is kept for the
/// settings `cfg`: they ask for a server, and it runs with their port, token
/// and allowed origins.
pub open spec fn keeps_running(cfg: LocalApiSettings, running: Option<RunningConfig>) -> bool {
    spec_should_run(cfg) && (running matches Some(rc) && rc.port == cfg.port && rc.token@ == cfg.token@ && origins_view(
        rc.allowed_origins@,
    ) == origins_view(cfg.allowed_origins@))
}

/// The configuration a server started for the settings `cfg` runs with.
pub open spec fn started_with(cfg: LocalApiSettings) -> RunningConfig {
    RunningConfig { port: cfg.port, token: cfg.token, allowed_origins: cfg.allowed_origins }
}

/// Reconciling is safe to repeat: once a server was started for settings
/// that ask for one, the same settings keep it running.
pub proof fn reconcile_keeps_what_it_started(cfg: LocalApiSettings)
    requires
        spec_should_run(cfg),
    ensures
        keeps_running(cfg, Some(started_with(cfg))),
{
}

/// What to do with the server for the settings `cfg` (default settings when
/// none are saved), given the configuration of the running server, if any.
pub fn plan_reconcile(cfg: &LocalApiSettings, running: Option<&RunningConfig>) -> (r: ReconcilePlan)
    ensures
        ({
            let unchanged = keeps_running(
                *cfg,
                match running {
                    Some(rc) => Some(*rc),
                    None => None,
                },
            );
            if unchanged {
                r is Keep
            } else if spec_should_run(*cfg) {
                r is Restart
            } else {
                r matches ReconcilePlan::Stop { error } && (if cfg.enabled && cfg.token@.len() == 0 {
                    error matches Some(e) && e@ == "no token configured"@
                } else {
                    error is None
                })
            }
        }),
{
    let should_run = cfg.enabled && cfg.token.as_str().unicode_len() > 0 && cfg.port > 0;
    let unchanged = match running {
        Some(rc) => should_run && rc.port == cfg.port && str_eq(rc.token.as_str(), cfg.token.as_str()) && same_origins(
            &rc.allowed_origins,
            &cfg.allowed_origins,
        ),
        None => false,
    };
    if unchanged {
        return ReconcilePlan::Keep;
    }
    if should_run {
        return ReconcilePlan::Restart;
    }
    if cfg.enabled && cfg.token.as_str().unicode_len() == 0 {
        ReconcilePlan::Stop { error: Some("no token configured".to_string()) }
    } else {
        ReconcilePlan::Stop { error: None }
    }
}

} // verus!
