//! The session registry and the control surface's decisions.
//!
//! Session ids are the lowercase 32-hex MD5 digest of `"file:" + file_key`
//! when a file key is supplied, else of `"url:" + url`, so one file keeps
//! one cache whatever URL it is reached by.  The registry maps ids to
//! sessions and holds at most one session per id; installing a session
//! under a new id clears all prior sessions.
use vstd::prelude::*;
use vstd::string::StringExecFns;
use vstd::string::StrSliceExecFns;

use crate::config::EngineConfig;
use crate::errors::ProxyError;
use crate::session::Session;
use crate::stats::StatsSnapshot;

verus! {

/// Information about an active proxy session.
#[derive(Debug, Clone)]
pub struct SessionInfo {
    pub session_id: String,
    pub playback_url: String,
    pub content_length: u64,
    pub content_type: String,
}

// ---------------------------------------------------------------------------
// Session ids.
// ---------------------------------------------------------------------------
/// The 16-byte MD5 digest of a string, a function of its characters alone.
pub uninterp spec fn md5_of(s: Seq<char>) -> Seq<u8>;

/// Relies on md5's `compute`: the 16-byte MD5 digest of the input bytes.
#[verifier::external_body]
fn md5_digest(s: &str) -> (r: Vec<u8>)
    ensures
        r@ == md5_of(s@),
        r@.len() == 16,
{
    md5::compute(s.as_bytes()).0.to_vec()
}

/// The lowercase hex digit for a value below 16.
pub open spec fn spec_hex_digit(n: int) -> char {
    if n == 0 {
        '0'
    } else if n == 1 {
        '1'
    } else if n == 2 {
        '2'
    } else if n == 3 {
        '3'
    } else if n == 4 {
        '4'
    } else if n == 5 {
        '5'
    } else if n == 6 {
        '6'
    } else if n == 7 {
        '7'
    } else if n == 8 {
        '8'
    } else if n == 9 {
        '9'
    } else if n == 10 {
        'a'
    } else if n == 11 {
        'b'
    } else if n == 12 {
        'c'
    } else if n == 13 {
        'd'
    } else if n == 14 {
        'e'
    } else {
        'f'
    }
}

/// Lowercase hex encoding: two digits per byte, high nibble first.
pub open spec fn spec_hex_of(bytes: Seq<u8>) -> Seq<char> {
    Seq::new(
        bytes.len() * 2,
        |i: int|
            if i % 2 == 0 {
                spec_hex_digit(bytes[i / 2] as int / 16)
            } else {
                spec_hex_digit(bytes[i / 2] as int % 16)
            },
    )
}

/// The string hashed for a session id.
pub open spec fn spec_id_input(url: Seq<char>, file_key: Seq<char>) -> Seq<char> {
    if file_key.len() > 0 {
        "file:"@ + file_key
    } else {
        "url:"@ + url
    }
}

/// The session id for a source: 32 lowercase hex characters of MD5.
pub open spec fn spec_session_id_of(url: Seq<char>, file_key: Seq<char>) -> Seq<char> {
    spec_hex_of(md5_of(spec_id_input(url, file_key)))
}

/// Law: a non-empty file key alone determines the session id; the URL
/// plays no part.
pub proof fn lemma_same_file_key_same_id(url1: Seq<char>, url2: Seq<char>, file_key: Seq<char>)
    requires
        file_key.len() > 0,
    ensures
        spec_session_id_of(url1, file_key) == spec_session_id_of(url2, file_key),
{
}

/// Law: with an empty file key, the URL alone determines the session id.
pub proof fn lemma_same_url_same_id(url: Seq<char>, fk1: Seq<char>, fk2: Seq<char>)
    requires
        fk1.len() == 0,
        fk2.len() == 0,
    ensures
        spec_session_id_of(url, fk1) == spec_session_id_of(url, fk2),
{
}

/// A one-character string for each hex digit value.
fn hex_digit_str(d: u8) -> (r: &'static str)
    requires
        d < 16,
    ensures
        r@ =~= seq![spec_hex_digit(d as int)],
{
    proof {
        reveal_strlit("0");
        reveal_strlit("1");
        reveal_strlit("2");
        reveal_strlit("3");
        reveal_strlit("4");
        reveal_strlit("5");
        reveal_strlit("6");
        reveal_strlit("7");
        reveal_strlit("8");
        reveal_strlit("9");
        reveal_strlit("a");
        reveal_strlit("b");
        reveal_strlit("c");
        reveal_strlit("d");
        reveal_strlit("e");
        reveal_strlit("f");
    }
    if d == 0 {
        "0"
    } else if d == 1 {
        "1"
    } else if d == 2 {
        "2"
    } else if d == 3 {
        "3"
    } else if d == 4 {
        "4"
    } else if d == 5 {
        "5"
    } else if d == 6 {
        "6"
    } else if d == 7 {
        "7"
    } else if d == 8 {
        "8"
    } else if d == 9 {
        "9"
    } else if d == 10 {
        "a"
    } else if d == 11 {
        "b"
    } else if d == 12 {
        "c"
    } else if d == 13 {
        "d"
    } else if d == 14 {
        "e"
    } else {
        "f"
    }
}

/// Lowercase hex encoding of a byte vector.
fn to_hex(bytes: &Vec<u8>) -> (r: String)
    ensures
        r@ == spec_hex_of(bytes@),
{
    let mut s = String::new();
    let n = bytes.len();
    let mut i: usize = 0;
    while i < n
        invariant
            n == bytes@.len(),
            i <= n,
            s@ =~= spec_hex_of(bytes@.subrange(0, i as int)),
        decreases n - i,
    {
        let b = bytes[i];
        let hi = hex_digit_str(b / 16);
        let lo = hex_digit_str(b % 16);
        s.append(hi);
        s.append(lo);
        proof {
            assert(s@ =~= spec_hex_of(bytes@.subrange(0, i + 1)));
        }
        i += 1;
    }
    proof {
        assert(bytes@.subrange(0, n as int) =~= bytes@);
    }
    s
}

/// Compute the deterministic session id for a source.
pub fn compute_session_id(url: &str, file_key: &str) -> (r: String)
    ensures
        r@ == spec_session_id_of(url@, file_key@),
        r@.len() == 32,
{
    let input = if !file_key.is_empty() {
        let mut s = String::from_str("file:");
        s.append(file_key);
        s
    } else {
        let mut s = String::from_str("url:");
        s.append(url);
        s
    };
    let digest = md5_digest(input.as_str());
    to_hex(&digest)
}

// ---------------------------------------------------------------------------
// Decimal formatting (for the playback URL's port).
// ---------------------------------------------------------------------------
/// The decimal digits of a non-negative number.
pub open spec fn spec_dec_digits(n: int) -> Seq<char>
    recommends
        n >= 0,
    decreases n,
{
    if n < 10 {
        seq![spec_hex_digit(n)]
    } else {
        spec_dec_digits(n / 10) + seq![spec_hex_digit(n % 10)]
    }
}

/// A number's decimal digit string.
fn fmt_u64(n: u64) -> (r: String)
    ensures
        r@ == spec_dec_digits(n as int),
{
    let mut digs: Vec<u8> = Vec::new();
    let mut m = n;
    digs.push((m % 10) as u8);
    m = m / 10;
    while m > 0
        invariant
            digs@.len() >= 1,
            forall|k: int| 0 <= k < digs@.len() ==> digs@[k] < 10,
            spec_dec_digits(n as int) == (if m > 0 {
                spec_dec_digits(m as int)
            } else {
                Seq::<char>::empty()
            }) + Seq::new(digs@.len(), |i: int| spec_hex_digit(digs@[digs@.len() - 1 - i] as int)),
        decreases m,
    {
        let ghost old_digs = digs@;
        digs.push((m % 10) as u8);
        proof {
            let new_rev = Seq::new(
                digs@.len(),
                |i: int| spec_hex_digit(digs@[digs@.len() - 1 - i] as int),
            );
            let old_rev = Seq::new(
                old_digs.len(),
                |i: int| spec_hex_digit(old_digs[old_digs.len() - 1 - i] as int),
            );
            assert(new_rev =~= seq![spec_hex_digit(m as int % 10)] + old_rev);
        }
        m = m / 10;
    }
    let len = digs.len();
    let mut s = String::new();
    let mut j = len;
    while j > 0
        invariant
            len == digs@.len(),
            j <= len,
            forall|k: int| 0 <= k < digs@.len() ==> digs@[k] < 10,
            spec_dec_digits(n as int) == Seq::new(
                digs@.len(),
                |i: int| spec_hex_digit(digs@[digs@.len() - 1 - i] as int),
            ),
            s@ =~= Seq::new(
                digs@.len(),
                |i: int| spec_hex_digit(digs@[digs@.len() - 1 - i] as int),
            ).subrange(0, len - j),
        decreases j,
    {
        let d = digs[j - 1];
        s.append(hex_digit_str(d));
        proof {
            assert(s@ =~= Seq::new(
                digs@.len(),
                |i: int| spec_hex_digit(digs@[digs@.len() - 1 - i] as int),
            ).subrange(0, len - (j - 1)));
        }
        j -= 1;
    }
    proof {
        let rev = Seq::new(digs@.len(), |i: int| spec_hex_digit(digs@[digs@.len() - 1 - i] as int));
        assert(rev.subrange(0, len as int) =~= rev);
    }
    s
}

/// The loopback URL a player streams a session from.
pub open spec fn spec_playback_url(port: u16, id: Seq<char>) -> Seq<char> {
    "http://127.0.0.1:"@ + spec_dec_digits(port as int) + "/stream/"@ + id
}

/// Build the playback URL for a session id on the edge's port.
pub fn playback_url(port: u16, session_id: &str) -> (r: String)
    ensures
        r@ == spec_playback_url(port, session_id@),
{
    let mut s = String::from_str("http://127.0.0.1:");
    let digits = fmt_u64(port as u64);
    s.append(digits.as_str());
    s.append("/stream/");
    s.append(session_id);
    s
}

// ---------------------------------------------------------------------------
// The registry.
// ---------------------------------------------------------------------------
/// First index whose id matches, scanning from `j`.
pub open spec fn spec_find_id(ids: Seq<Seq<char>>, id: Seq<char>, j: int) -> Option<int>
    decreases ids.len() - j,
{
    if j < 0 || j >= ids.len() {
        None
    } else if ids[j] == id {
        Some(j)
    } else {
        spec_find_id(ids, id, j + 1)
    }
}

/// Name-to-session mapping; at most one session per id.
pub struct SessionRegistry {
    ids: Vec<String>,
    sessions: Vec<Session>,
}

impl SessionRegistry {
    /// The ids, in insertion order.
    pub closed spec fn spec_ids(self) -> Seq<Seq<char>> {
        Seq::new(self.ids@.len(), |i: int| self.ids@[i]@)
    }

    /// The sessions, in insertion order.
    pub closed spec fn spec_sessions(self) -> Seq<Session> {
        self.sessions@
    }

    /// Whether an id is present.
    pub open spec fn spec_has(self, id: Seq<char>) -> bool {
        spec_find_id(self.spec_ids(), id, 0) is Some
    }

    /// One session per id, a session per slot, and each session keyed by
    /// its own id.
    pub open spec fn wf(self) -> bool {
        &&& self.spec_ids().len() == self.spec_sessions().len()
        &&& (forall|i: int, j: int|
            0 <= i < j < self.spec_ids().len() ==> self.spec_ids()[i] != self.spec_ids()[j])
        &&& (forall|i: int|
            0 <= i < self.spec_sessions().len() ==> (#[trigger] self.spec_sessions()[i]).wf()
                && self.spec_sessions()[i].spec_session_id() == self.spec_ids()[i])
    }

    /// An empty registry.
    pub fn new() -> (r: SessionRegistry)
        ensures
            r.wf(),
            r.spec_ids().len() == 0,
    {
        SessionRegistry { ids: Vec::new(), sessions: Vec::new() }
    }

    /// Number of sessions held.
    pub fn len(&self) -> (r: usize)
        requires
            self.wf(),
        ensures
            r == self.spec_ids().len(),
    {
        self.ids.len()
    }

    /// Index of an id, if present.
    pub fn find(&self, id: &String) -> (r: Option<usize>)
        requires
            self.wf(),
        ensures
            r is Some <==> self.spec_has(id@),
            r matches Some(i) ==> spec_find_id(self.spec_ids(), id@, 0) == Some(i as int),
            r is None ==> spec_find_id(self.spec_ids(), id@, 0) is None,
            r matches Some(i) ==> i < self.spec_ids().len() && self.spec_ids()[i as int] == id@,
    {
        let n = self.ids.len();
        let mut i: usize = 0;
        while i < n
            invariant
                self.wf(),
                n == self.spec_ids().len(),
                i <= n,
                forall|k: int| 0 <= k < i ==> self.spec_ids()[k] != id@,
                spec_find_id(self.spec_ids(), id@, 0) == spec_find_id(
                    self.spec_ids(),
                    id@,
                    i as int,
                ),
            decreases n - i,
        {
            if self.ids[i] == *id {
                proof {
                    assert(self.spec_ids()[i as int] == id@);
                }
                return Some(i);
            }
            i += 1;
        }
        None
    }

    /// The session at an index, for reads.
    pub fn session_at(&self, i: usize) -> (r: &Session)
        requires
            self.wf(),
            i < self.spec_sessions().len(),
        ensures
            *r == self.spec_sessions()[i as int],
    {
        &self.sessions[i]
    }

    /// The session at an index, for updates.  The caller must leave the
    /// session well-formed and keep its id.
    pub fn session_at_mut(&mut self, i: usize) -> (r: &mut Session)
        requires
            old(self).wf(),
            i < old(self).spec_sessions().len(),
        ensures
            *r == old(self).spec_sessions()[i as int],
            final(self).spec_sessions() == old(self).spec_sessions().update(i as int, *final(r)),
            final(self).spec_ids() == old(self).spec_ids(),
    {
        &mut self.sessions[i]
    }

    /// Drop every session.
    pub fn clear(&mut self)
        ensures
            final(self).wf(),
            final(self).spec_ids().len() == 0,
    {
        self.ids.clear();
        self.sessions.clear();
        proof {
            assert(self.spec_ids() =~= Seq::<Seq<char>>::empty());
        }
    }

    /// Install a session as the registry's only entry: all prior sessions
    /// are dropped first.
    pub fn install_sole(&mut self, session: Session)
        requires
            session.wf(),
        ensures
            final(self).wf(),
            final(self).spec_ids().len() == 1,
            final(self).spec_ids()[0] == session.spec_session_id(),
            final(self).spec_sessions()[0] == session,
            final(self).spec_has(session.spec_session_id()),
    {
        self.ids.clear();
        self.sessions.clear();
        let id = session.id().clone();
        self.ids.push(id);
        self.sessions.push(session);
        proof {
            assert(self.spec_ids() =~= seq![session.spec_session_id()]);
        }
    }

    /// Remove an id's session if present; other sessions are kept.
    pub fn remove(&mut self, id: &String)
        requires
            old(self).wf(),
        ensures
            final(self).wf(),
            !final(self).spec_has(id@),
            old(self).spec_has(id@) ==> final(self).spec_ids().len() == old(
                self,
            ).spec_ids().len() - 1,
            !old(self).spec_has(id@) ==> *final(self) == *old(self),
            forall|x: Seq<char>|
                x != id@ ==> (#[trigger] final(self).spec_has(x) == old(self).spec_has(x)),
    {
        let found = self.find(id);
        match found {
            None => {
                proof {
                    lemma_find_none_means_absent(self.spec_ids(), id@, 0);
                }
            },
            Some(i) => {
                let ghost pre_ids = self.spec_ids();
                self.ids.remove(i);
                self.sessions.remove(i);
                proof {
                    assert(self.spec_ids() =~= pre_ids.remove(i as int));
                    lemma_find_hit_any(pre_ids, id@, i as int);
                    lemma_remove_distinct(pre_ids, i as int);
                    lemma_absent_after_remove(pre_ids, id@, i as int);
                    assert forall|x: Seq<char>| x != id@ implies #[trigger] self.spec_has(x)
                        == old(self).spec_has(x) by {
                        lemma_has_after_remove(pre_ids, x, i as int);
                    }
                }
            },
        }
    }
}

/// A `None` find means no index matches.
proof fn lemma_find_none_means_absent(ids: Seq<Seq<char>>, id: Seq<char>, j: int)
    requires
        spec_find_id(ids, id, j) is None,
        0 <= j <= ids.len(),
    ensures
        forall|k: int| j <= k < ids.len() ==> ids[k] != id,
    decreases ids.len() - j,
{
    if j < ids.len() {
        lemma_find_none_means_absent(ids, id, j + 1);
    }
}

/// Scanning from at or before a known match finds something.
proof fn lemma_find_hit_from(ids: Seq<Seq<char>>, id: Seq<char>, j: int, i: int)
    requires
        0 <= j <= i < ids.len(),
        ids[i] == id,
    ensures
        spec_find_id(ids, id, j) is Some,
    decreases i - j,
{
    if j < i && ids[j] != id {
        lemma_find_hit_from(ids, id, j + 1, i);
    }
}

/// Removing an element of a distinct sequence keeps it distinct.
proof fn lemma_remove_distinct(ids: Seq<Seq<char>>, i: int)
    requires
        0 <= i < ids.len(),
        forall|a: int, b: int| 0 <= a < b < ids.len() ==> ids[a] != ids[b],
    ensures
        forall|a: int, b: int|
            0 <= a < b < ids.remove(i).len() ==> ids.remove(i)[a] != ids.remove(i)[b],
{
}

/// Removing a distinct sequence's only match leaves the id absent.
proof fn lemma_absent_after_remove(ids: Seq<Seq<char>>, id: Seq<char>, i: int)
    requires
        0 <= i < ids.len(),
        ids[i] == id,
        forall|a: int, b: int| 0 <= a < b < ids.len() ==> ids[a] != ids[b],
    ensures
        spec_find_id(ids.remove(i), id, 0) is None,
{
    let r = ids.remove(i);
    assert forall|k: int| 0 <= k < r.len() implies r[k] != id by {
        if k < i {
            assert(r[k] == ids[k]);
        } else {
            assert(r[k] == ids[k + 1]);
        }
    }
    lemma_no_match_finds_none(r, id, 0);
}

/// Membership of any other id survives removal.
proof fn lemma_has_after_remove(ids: Seq<Seq<char>>, x: Seq<char>, i: int)
    requires
        0 <= i < ids.len(),
        x != ids[i],
    ensures
        (spec_find_id(ids.remove(i), x, 0) is Some) == (spec_find_id(ids, x, 0) is Some),
{
    let r = ids.remove(i);
    if spec_find_id(ids, x, 0) is Some {
        lemma_find_some_means_present(ids, x, 0);
        let k2 = choose|k2: int| 0 <= k2 < ids.len() && ids[k2] == x;
        if k2 < i {
            assert(r[k2] == x);
            lemma_find_hit_any(r, x, k2);
        } else {
            assert(r[k2 - 1] == x);
            lemma_find_hit_any(r, x, k2 - 1);
        }
    }
    if spec_find_id(r, x, 0) is Some {
        lemma_find_some_means_present(r, x, 0);
        let k = choose|k: int| 0 <= k < r.len() && r[k] == x;
        if k < i {
            assert(ids[k] == x);
            lemma_find_hit_any(ids, x, k);
        } else {
            assert(ids[k + 1] == x);
            lemma_find_hit_any(ids, x, k + 1);
        }
    }
}

/// No match anywhere means the scan finds nothing.
proof fn lemma_no_match_finds_none(ids: Seq<Seq<char>>, id: Seq<char>, j: int)
    requires
        0 <= j <= ids.len(),
        forall|k: int| j <= k < ids.len() ==> ids[k] != id,
    ensures
        spec_find_id(ids, id, j) is None,
    decreases ids.len() - j,
{
    if j < ids.len() {
        lemma_no_match_finds_none(ids, id, j + 1);
    }
}

/// A hit anywhere makes the scan from 0 a hit.
proof fn lemma_find_hit_any(ids: Seq<Seq<char>>, id: Seq<char>, i: int)
    requires
        0 <= i < ids.len(),
        ids[i] == id,
    ensures
        spec_find_id(ids, id, 0) is Some,
{
    lemma_find_hit_from(ids, id, 0, i);
}

/// A successful scan means some index matches.
proof fn lemma_find_some_means_present(ids: Seq<Seq<char>>, id: Seq<char>, j: int)
    requires
        0 <= j <= ids.len(),
        spec_find_id(ids, id, j) is Some,
    ensures
        exists|k: int| j <= k < ids.len() && ids[k] == id,
    decreases ids.len() - j,
{
    if j < ids.len() {
        if ids[j] == id {
        } else {
            lemma_find_some_means_present(ids, id, j + 1);
        }
    }
}

// ---------------------------------------------------------------------------
// Engine state and the control surface.
// ---------------------------------------------------------------------------
/// The engine's owned state while initialized: its sessions, its
/// configuration, and the HTTP edge's bound port.
pub struct EngineState {
    registry: SessionRegistry,
    config: EngineConfig,
    port: u16,
}

impl EngineState {
    pub closed spec fn spec_registry(self) -> SessionRegistry {
        self.registry
    }

    pub closed spec fn spec_config(self) -> EngineConfig {
        self.config
    }

    pub closed spec fn spec_port(self) -> u16 {
        self.port
    }

    pub open spec fn wf(self) -> bool {
        self.spec_registry().wf()
    }

    /// The configured chunk size.
    pub fn chunk_size(&self) -> (r: u64)
        ensures
            r == self.spec_config().chunk_size,
    {
        self.config.chunk_size
    }

    /// The configured concurrency.
    pub fn max_concurrency(&self) -> (r: u32)
        ensures
            r == self.spec_config().max_concurrency,
    {
        self.config.max_concurrency
    }

    /// The cache directory.
    pub fn cache_dir(&self) -> (r: &String)
        ensures
            r@ == self.spec_config().cache_dir@,
    {
        &self.config.cache_dir
    }

    /// The edge's port.
    pub fn port(&self) -> (r: u16)
        ensures
            r == self.spec_port(),
    {
        self.port
    }

    /// The registry, for reads.
    pub fn registry(&self) -> (r: &SessionRegistry)
        ensures
            *r == self.spec_registry(),
    {
        &self.registry
    }

    /// The registry, for updates.
    pub fn registry_mut(&mut self) -> (r: &mut SessionRegistry)
        ensures
            *r == old(self).spec_registry(),
            final(self).spec_registry() == *final(r),
            final(self).spec_config() == old(self).spec_config(),
            final(self).spec_port() == old(self).spec_port(),
    {
        &mut self.registry
    }
}

/// Initialize the engine: idempotent, so a second call leaves the
/// existing state untouched and still succeeds.
pub fn init_engine(state: &mut Option<EngineState>, config: EngineConfig, port: u16) -> (r:
    Result<(), ProxyError>)
    requires
        (*old(state)) matches Some(s) ==> s.wf(),
    ensures
        r is Ok,
        (*old(state)) is Some ==> *final(state) == *old(state),
        (*final(state)) matches Some(s) ==> s.wf(),
        (*old(state)) is None ==> ((*final(state)) matches Some(s) && s.spec_registry().spec_ids().len()
            == 0 && s.spec_config() == config && s.spec_port() == port),
{
    if state.is_some() {
        return Ok(());
    }
    let registry = SessionRegistry::new();
    *state = Some(EngineState { registry, config, port });
    Ok(())
}

/// Tear the engine down: sessions dropped, state cleared.  Succeeds
/// whether or not the engine was initialized.
pub fn dispose(state: &mut Option<EngineState>) -> (r: Result<(), ProxyError>)
    ensures
        r is Ok,
        (*final(state)) is None,
{
    *state = None;
    Ok(())
}

/// Build the public description of a session.
fn session_info(session: &Session, port: u16) -> (r: SessionInfo)
    ensures
        r.session_id@ == session.spec_session_id(),
        r.playback_url@ == spec_playback_url(port, session.spec_session_id()),
        r.content_length == session.spec_content_length(),
        r.content_type@ == session.spec_content_type(),
{
    let id = session.id().clone();
    let url = playback_url(port, id.as_str());
    SessionInfo {
        session_id: id,
        playback_url: url,
        content_length: session.content_length(),
        content_type: String::from_str(session.content_type()),
    }
}

/// The reuse check of session creation: fails before initialization;
/// returns the existing session's description when the id is already
/// registered, else nothing — the caller then probes the origin, builds
/// the session, and installs it.
pub fn create_session_reuse(state: &Option<EngineState>, session_id: &String) -> (r: Result<
    Option<SessionInfo>,
    ProxyError,
>)
    requires
        state matches Some(s) ==> s.wf(),
    ensures
        r is Err <==> state is None,
        r is Err ==> r->Err_0 == ProxyError::NotInitialized,
        state matches Some(s) ==> ({
            &&& (r->Ok_0 is Some <==> s.spec_registry().spec_has(session_id@))
            &&& (r->Ok_0 matches Some(info) ==> ({
                let i = spec_find_id(s.spec_registry().spec_ids(), session_id@, 0)->Some_0;
                let session = s.spec_registry().spec_sessions()[i];
                &&& info.session_id@ == session_id@
                &&& info.playback_url@ == spec_playback_url(s.spec_port(), session_id@)
                &&& info.content_length == session.spec_content_length()
                &&& info.content_type@ == session.spec_content_type()
            }))
        }),
{
    match state {
        None => Err(ProxyError::NotInitialized),
        Some(s) => {
            match s.registry().find(session_id) {
                None => Ok(None),
                Some(i) => {
                    let session = s.registry().session_at(i);
                    Ok(Some(session_info(session, s.port())))
                },
            }
        },
    }
}

/// Install a freshly built session: all prior sessions are cleared (one
/// playback at a time keeps the disk bounded), the session becomes the
/// registry's only entry, and its description is returned.
pub fn create_session_install(state: &mut Option<EngineState>, session: Session) -> (r: Result<
    SessionInfo,
    ProxyError,
>)
    requires
        (*old(state)) matches Some(s) ==> s.wf(),
        session.wf(),
    ensures
        r is Err <==> (*old(state)) is None,
        r is Err ==> r->Err_0 == ProxyError::NotInitialized && *final(state) == *old(state),
        (*final(state)) matches Some(s) ==> s.wf(),
        (*old(state)) is Some ==> ((*final(state)) matches Some(s) && {
            &&& s.spec_registry().spec_ids().len() == 1
            &&& s.spec_registry().spec_ids()[0] == session.spec_session_id()
            &&& s.spec_registry().spec_sessions()[0] == session
            &&& s.spec_config() == (*old(state))->Some_0.spec_config()
            &&& s.spec_port() == (*old(state))->Some_0.spec_port()
        }),
        r matches Ok(info) ==> ({
            &&& info.session_id@ == session.spec_session_id()
            &&& info.playback_url@ == spec_playback_url(
                (*old(state))->Some_0.spec_port(),
                session.spec_session_id(),
            )
            &&& info.content_length == session.spec_content_length()
            &&& info.content_type@ == session.spec_content_type()
        }),
{
    match state {
        None => Err(ProxyError::NotInitialized),
        Some(s) => {
            let port = s.port();
            let info = session_info(&session, port);
            s.registry_mut().install_sole(session);
            Ok(info)
        },
    }
}

/// Close a session: removes it if present; closing an absent id is not an
/// error, but an uninitialized engine is.
pub fn close_session(state: &mut Option<EngineState>, session_id: &String) -> (r: Result<
    (),
    ProxyError,
>)
    requires
        (*old(state)) matches Some(s) ==> s.wf(),
    ensures
        r is Err <==> (*old(state)) is None,
        r is Err ==> r->Err_0 == ProxyError::NotInitialized && *final(state) == *old(state),
        (*final(state)) matches Some(s) ==> s.wf(),
        (*old(state)) is Some ==> ((*final(state)) matches Some(s) && !s.spec_registry().spec_has(
            session_id@,
        )),
{
    match state {
        None => Err(ProxyError::NotInitialized),
        Some(s) => {
            s.registry_mut().remove(session_id);
            Ok(())
        },
    }
}

/// A per-session statistics snapshot: `NotInitialized` before
/// `init_engine`, `NotFound` for an unknown id.
pub fn session_stats(state: &mut Option<EngineState>, session_id: &String, now_ms: u64) -> (r:
    Result<StatsSnapshot, ProxyError>)
    requires
        (*old(state)) matches Some(s) ==> s.wf(),
    ensures
        (*final(state)) matches Some(s) ==> s.wf(),
        (*old(state)) is None <==> (r is Err && r->Err_0 == ProxyError::NotInitialized),
        (*old(state)) matches Some(s) ==> ((r is Err && r->Err_0 == ProxyError::NotFound) <==> !s
            .spec_registry().spec_has(session_id@)),
        (*old(state)) matches Some(s) ==> (r matches Ok(snap) ==> ({
            let i = spec_find_id(s.spec_registry().spec_ids(), session_id@, 0)->Some_0;
            let sess = s.spec_registry().spec_sessions()[i];
            &&& snap.active_workers == sess.spec_stats().spec_active_workers()
            &&& snap.requested_bytes == sess.spec_stats().spec_requested_bytes()
            &&& snap.cache_hit_bytes == sess.spec_stats().spec_cache_hit_bytes()
            &&& snap.buffered_bytes_ahead == sess.spec_cache().spec_buffered_ahead(
                sess.spec_playback_offset(),
            )
        })),
        (*old(state)) is None ==> *final(state) == *old(state),
{
    match state {
        None => Err(ProxyError::NotInitialized),
        Some(s) => {
            let reg = s.registry_mut();
            match reg.find(session_id) {
                None => Err(ProxyError::NotFound),
                Some(i) => {
                    let session = reg.session_at_mut(i);
                    let snap = session.snapshot(now_ms);
                    Ok(snap)
                },
            }
        },
    }
}

} // verus!
