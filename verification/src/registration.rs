use vstd::prelude::*;
use vstd::arithmetic::power2::{lemma2_to64, lemma_pow2_pos, lemma_pow2_unfold, pow2};
use crate::cli_args::{CLIArgs, first_ini_value, ini_paths};
use crate::mods::Mod;
use crate::notifications::ServerStatus;
use crate::text::{concat_all, concat_strs};

verus! {

/// The path of the server list on the backend.
pub open spec fn api_base_path() -> Seq<char> {
    "/api/v1/servers"@
}

/// The shortest period between heartbeats, in seconds.
pub const MIN_HEARTBEAT_FLOOR_SECS: u64 = 5;

/// The longest period between heartbeats, in seconds.
pub const MAX_HEARTBEAT_CAP_SECS: u64 = 30;

/// How long before its expiry an identity is renewed, in seconds.
pub const HEARTBEAT_GRACE_PERIOD_SECS: u64 = 5;

/// The first wait after a failure, in seconds.
pub const BACKOFF_INITIAL_SECS: u64 = 10;

/// The longest wait after failures, in seconds.
pub const BACKOFF_MAX_SECS: u64 = 300;

/// Joins the strings of `parts`.
fn join(parts: &[&str]) -> (r: String)
    ensures
        r@ == concat_all(parts@),
{
    concat_strs(parts)
}

/// The base URL of the server browser backend (empty when none was given).
pub fn base_url(args: &CLIArgs) -> (r: String)
    ensures
        r@ == match args.server_browser_backend {
            Some(b) => b@,
            None => Seq::<char>::empty(),
        },
{
    match &args.server_browser_backend {
        Some(b) => b.clone(),
        None => String::new(),
    }
}

/// The URL at which servers register.
pub fn register_url(base: &str) -> (r: String)
    ensures
        r@ == base@ + api_base_path(),
{
    let parts = [base, "/api/v1/servers"];
    let r = join(&parts);
    proof {
        reveal_with_fuel(concat_all, 3);
        assert(parts@.drop_last().drop_last() =~= Seq::<&str>::empty());
        assert(parts@.drop_last() =~= seq![parts[0]]);
    }
    r
}

/// The URL of the registered server `id` (`{base}/{path}/{id}`).
pub fn server_url(base: &str, id: &str) -> (r: String)
    ensures
        r@ == base@ + "/"@ + api_base_path() + "/"@ + id@,
{
    let parts = [base, "/", "/api/v1/servers", "/", id];
    let r = join(&parts);
    proof {
        reveal_with_fuel(concat_all, 6);
        assert(parts@.drop_last().drop_last().drop_last().drop_last().drop_last() =~= Seq::<&str>::empty());
        assert(parts@.drop_last().drop_last().drop_last().drop_last() =~= seq![parts[0]]);
        assert(parts@.drop_last().drop_last().drop_last() =~= seq![parts[0], parts[1]]);
        assert(parts@.drop_last().drop_last() =~= seq![parts[0], parts[1], parts[2]]);
        assert(parts@.drop_last() =~= seq![parts[0], parts[1], parts[2], parts[3]]);
    }
    r
}

/// The heartbeat URL of the registered server `id`.
pub fn heartbeat_url(base: &str, id: &str) -> (r: String)
    ensures
        r@ == base@ + "/"@ + api_base_path() + "/"@ + id@ + "/heartbeat"@,
{
    let s = server_url(base, id);
    let parts = [s.as_str(), "/heartbeat"];
    let r = join(&parts);
    proof {
        reveal_with_fuel(concat_all, 3);
        assert(parts@.drop_last().drop_last() =~= Seq::<&str>::empty());
        assert(parts@.drop_last() =~= seq![parts[0]]);
    }
    r
}

/// The server description sent to the backend: game, build and folder.
pub fn server_description(game: &str, version: &str, folder: &str) -> (r: String)
    ensures
        r@ == game@ + " (build "@ + version@ + ")\n"@ + folder@ + " server"@,
{
    let parts = [game, " (build ", version, ")\n", folder, " server"];
    let r = join(&parts);
    proof {
        reveal_with_fuel(concat_all, 7);
        let p = parts@;
        assert(p.drop_last().drop_last().drop_last().drop_last().drop_last().drop_last() =~= Seq::<&str>::empty());
        assert(p.drop_last().drop_last().drop_last().drop_last().drop_last() =~= seq![p[0]]);
        assert(p.drop_last().drop_last().drop_last().drop_last() =~= seq![p[0], p[1]]);
        assert(p.drop_last().drop_last().drop_last() =~= seq![p[0], p[1], p[2]]);
        assert(p.drop_last().drop_last() =~= seq![p[0], p[1], p[2], p[3]]);
        assert(p.drop_last() =~= seq![p[0], p[1], p[2], p[3], p[4]]);
    }
    r
}

/// The seconds between heartbeats for an identity that expires at `expiry`
/// (Unix seconds) when it is `now`: the time left, kept between 5 and 30
/// seconds; 5 seconds when it has already expired.
pub open spec fn spec_heartbeat_period(expiry: u64, now: u64) -> u64 {
    if expiry > now {
        let left = (expiry - now) as u64;
        if left < MIN_HEARTBEAT_FLOOR_SECS {
            MIN_HEARTBEAT_FLOOR_SECS
        } else if left > MAX_HEARTBEAT_CAP_SECS {
            MAX_HEARTBEAT_CAP_SECS
        } else {
            left
        }
    } else {
        MIN_HEARTBEAT_FLOOR_SECS
    }
}

/// Computes the period between heartbeats.
pub fn heartbeat_period(expiry: u64, now: u64) -> (r: u64)
    ensures
        r == spec_heartbeat_period(expiry, now),
        MIN_HEARTBEAT_FLOOR_SECS <= r <= MAX_HEARTBEAT_CAP_SECS,
{
    if expiry > now {
        let left = expiry - now;
        if left < MIN_HEARTBEAT_FLOOR_SECS {
            MIN_HEARTBEAT_FLOOR_SECS
        } else if left > MAX_HEARTBEAT_CAP_SECS {
            MAX_HEARTBEAT_CAP_SECS
        } else {
            left
        }
    } else {
        MIN_HEARTBEAT_FLOOR_SECS
    }
}

/// The wait after another failure: twice the last one, at most
/// `BACKOFF_MAX_SECS`.
pub open spec fn spec_next_backoff(backoff: u64) -> u64 {
    if backoff * 2 < BACKOFF_MAX_SECS {
        (backoff * 2) as u64
    } else {
        BACKOFF_MAX_SECS
    }
}

/// Computes the wait after another failure.
pub fn next_backoff(backoff: u64) -> (r: u64)
    requires
        backoff <= BACKOFF_MAX_SECS,
    ensures
        r == spec_next_backoff(backoff),
        r <= BACKOFF_MAX_SECS,
{
    let d = backoff * 2;
    if d < BACKOFF_MAX_SECS {
        d
    } else {
        BACKOFF_MAX_SECS
    }
}

/// The wait before attempt `k + 1` after `k + 1` failures in a row (counted
/// from a fresh start or the last success, which reset the wait to
/// `BACKOFF_INITIAL_SECS`).
pub open spec fn backoff_after(k: nat) -> u64
    decreases k,
{
    if k == 0 {
        BACKOFF_INITIAL_SECS
    } else {
        spec_next_backoff(backoff_after((k - 1) as nat))
    }
}

/// Failures in a row make the worker wait 10, 20, 40, 80 and 160 seconds, and
/// 300 seconds each time after that: the `k`-th wait (from 0) is
/// `min(10 * 2^k, 300)`.
pub proof fn lemma_backoff_run(k: nat)
    ensures
        backoff_after(k) == (if BACKOFF_INITIAL_SECS * pow2(k) < BACKOFF_MAX_SECS {
            BACKOFF_INITIAL_SECS * pow2(k)
        } else {
            BACKOFF_MAX_SECS as int
        }),
        backoff_after(k) <= BACKOFF_MAX_SECS,
    decreases k,
{
    if k == 0 {
        assert(pow2(0) == 1) by {
            lemma2_to64();
        }
    } else {
        lemma_backoff_run((k - 1) as nat);
        lemma_pow2_unfold(k);
        lemma_pow2_pos((k - 1) as nat);
    }
}

/// The backend's answer for a registered server.
pub struct Identity {
    pub id: String,
    pub key: String,
    pub refresh_at: u64,
    pub refresh_period: u64,
}

impl Identity {
    /// An identity for server `id` with key `key`, renewed every minute.
    pub fn new(id: String, key: String) -> (r: Identity)
        ensures
            r.id@ == id@,
            r.key@ == key@,
            r.refresh_at == 0,
            r.refresh_period == 60,
    {
        Identity { id, key, refresh_at: 0, refresh_period: 60 }
    }

    /// An identity with no id or key, renewed every minute.
    pub fn default() -> (r: Identity)
        ensures
            r.id@ == Seq::<char>::empty(),
            r.key@ == Seq::<char>::empty(),
            r.refresh_at == 0,
            r.refresh_period == 60,
    {
        Identity { id: String::new(), key: String::new(), refresh_at: 0, refresh_period: 60 }
    }

    /// The identity the backend gives on registration: its id and key, expiring
    /// at `expiry`, with the heartbeat period that expiry calls for at `now`.
    pub fn from_registration(id: String, key: String, expiry: u64, now: u64) -> (r: Identity)
        ensures
            r.id@ == id@,
            r.key@ == key@,
            r.refresh_at == expiry,
            r.refresh_period == spec_heartbeat_period(expiry, now),
    {
        let period = heartbeat_period(expiry, now);
        Identity { id, key, refresh_at: expiry, refresh_period: period }
    }

    /// The identity can still be used at `now`: it expires more than the grace
    /// period later.
    pub fn is_fresh(&self, now: u64) -> (r: bool)
        requires
            now <= u64::MAX - HEARTBEAT_GRACE_PERIOD_SECS,
        ensures
            r == (self.refresh_at > now + HEARTBEAT_GRACE_PERIOD_SECS),
    {
        self.refresh_at > now + HEARTBEAT_GRACE_PERIOD_SECS
    }
}

/// Whether an HTTP status code reports success (2xx).
pub open spec fn is_success(status: u16) -> bool {
    200 <= status <= 299
}

/// Whether an HTTP status code reports a refused key (401 or 403).
pub open spec fn is_auth_failure(status: u16) -> bool {
    status == 401 || status == 403
}

/// Whether the answer to the metadata update (if the request got one) ends
/// the heartbeat with an authorization failure.
pub fn update_refused(status: Option<u16>) -> (r: bool)
    ensures
        r == (status matches Some(s) && is_auth_failure(s)),
{
    match status {
        Some(s) => s == 401 || s == 403,
        None => false,
    }
}

/// The outcome of a heartbeat: `Ok` with the new expiry (the parsed one, or
/// the current one when the answer could not be read) when it succeeded,
/// `Err(true)` when the key was refused, `Err(false)` on any other failure.
pub fn heartbeat_outcome(status: Option<u16>, parsed_expiry: Option<u64>, current_refresh_at: u64) -> (r: Result<u64, bool>)
    ensures
        r == match status {
            Some(s) => if is_success(s) {
                match parsed_expiry {
                    Some(e) => Ok(e),
                    None => Ok(current_refresh_at),
                }
            } else if is_auth_failure(s) {
                Err(true)
            } else {
                Err(false)
            },
            None => Err(false),
        },
{
    match status {
        Some(s) => {
            if 200 <= s && s <= 299 {
                match parsed_expiry {
                    Some(e) => Ok(e),
                    None => Ok(current_refresh_at),
                }
            } else if s == 401 || s == 403 {
                Err(true)
            } else {
                Err(false)
            }
        },
        None => Err(false),
    }
}

/// What the registration worker does next.
#[derive(PartialEq, Eq, Structural, Debug)]
pub enum WorkerAction {
    /// Wait this many seconds (or until woken) and go round again.
    Wait(u64),
    /// Forget the identity and stop.
    Stop,
}

/// The worker's step after a heartbeat: on success it keeps the new expiry,
/// resets the backoff and waits a heartbeat period; when the key was refused
/// it stops; on another failure it waits the backoff, which then doubles.
/// Returns the action, the next backoff and the identity's expiry.
pub fn after_heartbeat(outcome: Result<u64, bool>, backoff: u64, ident: &Identity) -> (r: (WorkerAction, u64, u64))
    requires
        backoff <= BACKOFF_MAX_SECS,
    ensures
        match outcome {
            Ok(e) => r == (WorkerAction::Wait(ident.refresh_period), BACKOFF_INITIAL_SECS, e),
            Err(true) => r == (WorkerAction::Stop, backoff, ident.refresh_at),
            Err(false) => r == (WorkerAction::Wait(backoff), spec_next_backoff(backoff), ident.refresh_at),
        },
        r.1 <= BACKOFF_MAX_SECS,
{
    match outcome {
        Ok(e) => (WorkerAction::Wait(ident.refresh_period), BACKOFF_INITIAL_SECS, e),
        Err(true) => (WorkerAction::Stop, backoff, ident.refresh_at),
        Err(false) => (WorkerAction::Wait(backoff), next_backoff(backoff), ident.refresh_at),
    }
}

/// The worker's step after asking for an identity: with one, the wait after
/// failures starts over at `BACKOFF_INITIAL_SECS` and the heartbeat follows at
/// once (`None`); without, the worker waits the current backoff (`Some`),
/// which then doubles.
pub fn after_identity(found: bool, backoff: u64) -> (r: (Option<u64>, u64))
    requires
        backoff <= BACKOFF_MAX_SECS,
    ensures
        found ==> r == (Option::<u64>::None, BACKOFF_INITIAL_SECS),
        !found ==> r == (Some(backoff), spec_next_backoff(backoff)),
{
    if found {
        (None, BACKOFF_INITIAL_SECS)
    } else {
        (Some(backoff), next_backoff(backoff))
    }
}

/// The query port assumed when none was given.
pub const DEFAULT_QUERY_PORT: u16 = 7071;

/// Whether the process registers with the server browser, and on which query
/// port: it does when it runs as a server or `--register` was given, on the
/// given query port or `DEFAULT_QUERY_PORT`.
pub fn registration_query_port(args: &CLIArgs) -> (r: Option<u16>)
    ensures
        r == (if args.rcon_port is Some || args.register {
            Some(
                match args.game_server_query_port {
                    Some(p) => p,
                    None => DEFAULT_QUERY_PORT,
                },
            )
        } else {
            None
        }),
{
    if args.is_server() || args.register {
        Some(
            match args.game_server_query_port {
                Some(p) => p,
                None => DEFAULT_QUERY_PORT,
            },
        )
    } else {
        None
    }
}

/// The ports a server announces.
pub struct Ports {
    pub game: u16,
    pub ping: u16,
    pub a2s: u16,
}

/// What the server's query port reports about it.
pub struct A2sInfo {
    pub name: String,
    pub map: String,
    pub folder: String,
    pub game: String,
    pub version: String,
    pub players: u8,
    pub max_players: u8,
    pub port: Option<u16>,
}

/// The registration sent to the backend.
pub struct RegisterRequest {
    pub ports: Ports,
    pub name: String,
    pub description: String,
    pub password_protected: bool,
    pub current_map: String,
    pub player_count: i32,
    pub max_players: i32,
    pub local_ip_address: String,
    pub mods: Vec<Mod>,
}

/// The name a server registers under: the `ServerName` ini override of the
/// game mode, else the name the query port reports.
pub open spec fn registered_name(args: CLIArgs, info_name: Seq<char>) -> Seq<char> {
    match first_ini_value(args.ini_overrides@, seq![("Game"@, "[/Script/TBL.TBLGameMode]"@, "ServerName"@)]) {
        Some(n) => n,
        None => info_name,
    }
}

/// Builds the registration of the server described by `info`, with the ports
/// and password from the command line and the active `mods`. A missing game
/// port is 7777; missing ping and query ports are 0.
pub fn build_register_request(info: &A2sInfo, args: &CLIArgs, mods: Vec<Mod>) -> (r: RegisterRequest)
    ensures
        r.ports.game == match info.port {
            Some(p) => p,
            None => 7777,
        },
        r.ports.ping == match args.game_server_ping_port {
            Some(p) => p,
            None => 0,
        },
        r.ports.a2s == match args.game_server_query_port {
            Some(p) => p,
            None => 0,
        },
        r.name@ == registered_name(*args, info.name@),
        r.description@ == info.game@ + " (build "@ + info.version@ + ")\n"@ + info.folder@ + " server"@,
        r.password_protected == args.server_password is Some,
        r.current_map@ == info.map@,
        r.player_count == info.players as i32,
        r.max_players == info.max_players as i32,
        r.local_ip_address@ == "127.0.0.1"@,
        r.mods@ == mods@,
{
    let paths = [("Game", "[/Script/TBL.TBLGameMode]", "ServerName")];
    let found = args.find_ini_value(&paths);
    assert(ini_paths(paths@) =~= seq![("Game"@, "[/Script/TBL.TBLGameMode]"@, "ServerName"@)]);
    let name = match found {
        Some(n) => n.to_owned(),
        None => info.name.clone(),
    };
    let description = server_description(info.game.as_str(), info.version.as_str(), info.folder.as_str());
    RegisterRequest {
        ports: Ports {
            game: match info.port {
                Some(p) => p,
                None => 7777,
            },
            ping: match args.game_server_ping_port {
                Some(p) => p,
                None => 0,
            },
            a2s: match args.game_server_query_port {
                Some(p) => p,
                None => 0,
            },
        },
        name,
        description,
        password_protected: args.server_password.is_some(),
        current_map: info.map.clone(),
        player_count: info.players as i32,
        max_players: info.max_players as i32,
        local_ip_address: "127.0.0.1".to_owned(),
        mods,
    }
}

/// The metadata sent with each heartbeat.
pub struct UpdatePayload {
    pub player_count: i32,
    pub max_players: i32,
    pub current_map: String,
}

/// The metadata update for what the query port reported: the player counts
/// and the current map.
pub fn update_payload(info: &A2sInfo) -> (r: UpdatePayload)
    ensures
        r.player_count == info.players as i32,
        r.max_players == info.max_players as i32,
        r.current_map@ == info.map@,
{
    UpdatePayload {
        player_count: info.players as i32,
        max_players: info.max_players as i32,
        current_map: info.map.clone(),
    }
}

/// The status announced after a successful registration: the request's
/// fields, all known mods and the active ones.
pub fn status_after_registration(request: RegisterRequest, all_mods: Vec<Mod>) -> (r: ServerStatus)
    ensures
        r.name == request.name,
        r.description == request.description,
        r.password_protected == request.password_protected,
        r.current_map == request.current_map,
        r.player_count == request.player_count,
        r.max_players == request.max_players,
        r.mods == all_mods,
        r.active_mods == request.mods,
{
    ServerStatus {
        name: request.name,
        description: request.description,
        password_protected: request.password_protected,
        current_map: request.current_map,
        player_count: request.player_count,
        max_players: request.max_players,
        mods: all_mods,
        active_mods: request.mods,
    }
}

/// The worker's run state.
#[derive(PartialEq, Eq, Structural, Debug)]
pub enum WorkerState {
    Idle,
    Running,
    StopRequested,
}

/// Starting the worker: it starts (`true`) only when it is not already
/// running, and is then running.
pub fn start_worker(state: &mut WorkerState) -> (r: bool)
    ensures
        r == (*old(state) != WorkerState::Running),
        *final(state) == WorkerState::Running,
{
    if *state == WorkerState::Running {
        return false;
    }
    *state = WorkerState::Running;
    true
}

/// What the backend's answer to a registration leads to: whether the server's
/// status is announced (on any success) and the identity, when the answer
/// also read.
pub struct RegisterAnswer {
    pub announce: bool,
    pub identity: Option<Identity>,
}

/// Handles the answer to a registration sent at `now`: `status` is the HTTP
/// status (none when the request failed) and `parsed` the server id, key and
/// expiry read from the body (none when it did not read). A success announces
/// the status; with a body that read it also gives the new identity.
pub fn register_answer(status: Option<u16>, parsed: Option<(String, String, u64)>, now: u64) -> (r: RegisterAnswer)
    ensures
        r.announce == (status matches Some(s) && is_success(s)),
        r.identity is Some <==> (r.announce && parsed is Some),
        match (r.identity, parsed) {
            (Some(i), Some(p)) => i.id@ == p.0@ && i.key@ == p.1@ && i.refresh_at == p.2 && i.refresh_period
                == spec_heartbeat_period(p.2, now),
            _ => true,
        },
{
    let announce = match status {
        Some(s) => 200 <= s && s <= 299,
        None => false,
    };
    if !announce {
        return RegisterAnswer { announce, identity: None };
    }
    match parsed {
        Some((id, key, expiry)) => RegisterAnswer {
            announce,
            identity: Some(Identity::from_registration(id, key, expiry, now)),
        },
        None => RegisterAnswer { announce, identity: None },
    }
}

/// The waits of `n` failed attempts in a row, the first waiting `backoff`
/// and each doubling the next (see [`spec_next_backoff`]).
pub open spec fn failure_waits(backoff: u64, n: nat) -> Seq<u64>
    decreases n,
{
    if n == 0 {
        Seq::empty()
    } else {
        seq![backoff] + failure_waits(spec_next_backoff(backoff), (n - 1) as nat)
    }
}

/// Failed attempts that follow `j` earlier ones wait as the `j`-th and later
/// waits of a run from a fresh start.
proof fn lemma_failure_waits_from(j: nat, n: nat)
    ensures
        failure_waits(backoff_after(j), n).len() == n,
        forall|k: int| 0 <= k < n ==> #[trigger] failure_waits(backoff_after(j), n)[k] == backoff_after(j + k as nat),
    decreases n,
{
    if n > 0 {
        lemma_failure_waits_from(j + 1, (n - 1) as nat);
        let rest = failure_waits(backoff_after(j + 1), (n - 1) as nat);
        assert(backoff_after(j + 1) == spec_next_backoff(backoff_after(j)));
        assert forall|k: int| 0 <= k < n implies #[trigger] failure_waits(backoff_after(j), n)[k] == backoff_after(
            j + k as nat,
        ) by {
            if k > 0 {
                assert(failure_waits(backoff_after(j), n)[k] == rest[k - 1]);
                assert((j + 1) + (k - 1) as nat == j + k as nat);
            }
        }
    }
}

/// From a fresh start (or a success, which resets the wait), `n` failed
/// attempts in a row wait 10, 20, 40, 80 and 160 seconds and 300 seconds each
/// time after: the `k`-th wait (from 0) is `min(10 * 2^k, 300)`.
pub proof fn lemma_failure_run(n: nat)
    ensures
        failure_waits(BACKOFF_INITIAL_SECS, n).len() == n,
        forall|k: int|
            0 <= k < n ==> #[trigger] failure_waits(BACKOFF_INITIAL_SECS, n)[k] == (if BACKOFF_INITIAL_SECS
                * pow2(k as nat) < BACKOFF_MAX_SECS {
                BACKOFF_INITIAL_SECS * pow2(k as nat)
            } else {
                BACKOFF_MAX_SECS as int
            }),
{
    lemma_failure_waits_from(0, n);
    assert(backoff_after(0) == BACKOFF_INITIAL_SECS);
    assert forall|k: int| 0 <= k < n implies #[trigger] failure_waits(BACKOFF_INITIAL_SECS, n)[k] == (if BACKOFF_INITIAL_SECS
        * pow2(k as nat) < BACKOFF_MAX_SECS {
        BACKOFF_INITIAL_SECS * pow2(k as nat)
    } else {
        BACKOFF_MAX_SECS as int
    }) by {
        assert(0 + k as nat == k as nat);
        lemma_backoff_run(k as nat);
    }
}

/// The text and times of an identity.
pub open spec fn identity_view(i: Identity) -> (Seq<char>, Seq<char>, u64, u64) {
    (i.id@, i.key@, i.refresh_at, i.refresh_period)
}

/// What the registration worker keeps from one round to the next: the
/// identity it holds, if any, and the wait after the next failure.
pub struct WorkerLoop {
    identity: Option<Identity>,
    backoff: u64,
}

impl WorkerLoop {
    /// The identity held, as text and times.
    pub closed spec fn held(&self) -> Option<(Seq<char>, Seq<char>, u64, u64)> {
        match self.identity {
            Some(i) => Some(identity_view(i)),
            None => None,
        }
    }

    /// The wait after the next failure.
    pub closed spec fn spec_backoff(&self) -> u64 {
        self.backoff
    }

    /// A worker that holds no identity, its wait at `BACKOFF_INITIAL_SECS`.
    pub fn new() -> (r: WorkerLoop)
        ensures
            r.held() is None,
            r.spec_backoff() == backoff_after(0),
    {
        WorkerLoop { identity: None, backoff: BACKOFF_INITIAL_SECS }
    }

    /// The wait after the next failure.
    pub fn backoff(&self) -> (r: u64)
        ensures
            r == self.spec_backoff(),
    {
        self.backoff
    }

    /// Whether the worker first waits for the server to answer on its query
    /// port: only when it holds no identity (one held from an earlier run
    /// skips that discovery).
    pub fn needs_discovery(&self) -> (r: bool)
        ensures
            r == (self.held() is None),
    {
        self.identity.is_none()
    }

    /// The identity held, when it can still be used at `now` (it expires more
    /// than the grace period later); otherwise the server registers again.
    pub fn usable_identity(&self, now: u64) -> (r: Option<Identity>)
        requires
            now <= u64::MAX - HEARTBEAT_GRACE_PERIOD_SECS,
        ensures
            match self.held() {
                Some(h) => if h.2 > now + HEARTBEAT_GRACE_PERIOD_SECS {
                    r matches Some(i) && identity_view(i) == h
                } else {
                    r is None
                },
                None => r is None,
            },
    {
        match &self.identity {
            Some(i) => {
                if i.is_fresh(now) {
                    Some(Identity { id: i.id.clone(), key: i.key.clone(), refresh_at: i.refresh_at, refresh_period: i.refresh_period })
                } else {
                    None
                }
            },
            None => None,
        }
    }

    /// The round's identity: one (kept, or new from a registration) is held
    /// and the wait starts over, with no wait now (`None`); without one the
    /// worker waits the current wait (`Some`), which then doubles, and keeps
    /// what it held.
    pub fn on_identity(&mut self, found: Option<Identity>) -> (r: Option<u64>)
        requires
            old(self).spec_backoff() <= BACKOFF_MAX_SECS,
        ensures
            final(self).spec_backoff() <= BACKOFF_MAX_SECS,
            match found {
                Some(i) => r is None && final(self).held() == Some(identity_view(i)) && final(self).spec_backoff()
                    == BACKOFF_INITIAL_SECS,
                None => r == Some(old(self).spec_backoff()) && final(self).held() == old(self).held()
                    && final(self).spec_backoff() == spec_next_backoff(old(self).spec_backoff()),
            },
    {
        let (wait, next) = after_identity(found.is_some(), self.backoff);
        if found.is_some() {
            self.identity = found;
        }
        self.backoff = next;
        wait
    }

    /// The round's heartbeat outcome for the identity held (see
    /// [`after_heartbeat`]): on success its expiry is updated, the wait starts
    /// over and the worker waits the identity's period; when the key was
    /// refused the identity is dropped and the worker stops; on another
    /// failure it waits the current wait, which then doubles.
    pub fn on_heartbeat(&mut self, outcome: Result<u64, bool>) -> (r: WorkerAction)
        requires
            old(self).held() is Some,
            old(self).spec_backoff() <= BACKOFF_MAX_SECS,
        ensures
            final(self).spec_backoff() <= BACKOFF_MAX_SECS,
            match outcome {
                Ok(e) => old(self).held() matches Some(h) && r == WorkerAction::Wait(h.3) && final(self).held()
                    == Some((h.0, h.1, e, h.3)) && final(self).spec_backoff() == BACKOFF_INITIAL_SECS,
                Err(true) => r == WorkerAction::Stop && final(self).held() is None && final(self).spec_backoff()
                    == old(self).spec_backoff(),
                Err(false) => r == WorkerAction::Wait(old(self).spec_backoff()) && final(self).held() == old(
                    self,
                ).held() && final(self).spec_backoff() == spec_next_backoff(old(self).spec_backoff()),
            },
    {
        let ident = match self.identity.take() {
            Some(i) => i,
            None => {
                assert(false);
                return WorkerAction::Stop;
            },
        };
        let (action, next, expiry) = after_heartbeat(outcome, self.backoff, &ident);
        self.backoff = next;
        match outcome {
            Err(true) => {
                self.identity = None;
            },
            _ => {
                self.identity = Some(Identity { refresh_at: expiry, ..ident });
            },
        }
        action
    }
}

} // verus!
