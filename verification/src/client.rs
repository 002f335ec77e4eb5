//! The `zotunnel` client: its config (`~/.zotunnel/config.yaml`), tunnel
//! names, local addresses, background-tunnel files and the reconnect policy.
//! Files, processes and the network are left to the caller.

use crate::random::random_hex;
use crate::release::{parse_u32, parse_u32_exec};
use crate::text::{
    chars_of, contains, contains_exec, hex_encode, join_path, opt_chars, path_join, slice_chars,
    split, split_exec, starts_with, starts_with_exec, string_from_chars, trim, trim_chars, views,
};
use vstd::prelude::*;
use vstd::string::*;
use vstd::utf8::*;

verus! {

#[derive(Debug, Clone)]
pub struct ClientTlsConfig {
    pub enabled: bool,
    pub server_name: String,
    pub skip_verify: bool,
}

impl Default for ClientTlsConfig {
    fn default() -> (r: Self)
        ensures
            !r.enabled && r.server_name@.len() == 0 && !r.skip_verify,
    {
        ClientTlsConfig { enabled: false, server_name: String::new(), skip_verify: false }
    }
}

#[derive(Debug, Clone)]
pub struct ZotunnelConfig {
    pub server: String,
    pub token: String,
    pub tls: ClientTlsConfig,
}

/// `$HOME/.zotunnel`; `None` when `$HOME` is not set.
pub fn config_dir(home: Option<&str>) -> (r: Option<String>)
    ensures
        home is None ==> r is None,
        home matches Some(h) ==> (r matches Some(d) && d@ == path_join(h@, ".zotunnel"@)),
{
    match home {
        None => None,
        Some(h) => Some(join_path(h, ".zotunnel")),
    }
}

/// `$HOME/.zotunnel/config.yaml`; `None` when `$HOME` is not set.
pub fn config_path(home: Option<&str>) -> (r: Option<String>)
    ensures
        home is None ==> r is None,
        home matches Some(h) ==> (r matches Some(p) && p@ == path_join(
            path_join(h@, ".zotunnel"@),
            "config.yaml"@,
        )),
{
    match config_dir(home) {
        None => None,
        Some(d) => Some(join_path(d.as_str(), "config.yaml")),
    }
}

/// The masked form of a token: `****` for tokens of at most four bytes,
/// otherwise the first four bytes followed by `****`.
pub open spec fn masked(token: Seq<char>) -> Seq<char> {
    if encode_utf8(token).len() <= 4 {
        "****"@
    } else {
        decode_utf8(encode_utf8(token).take(4)) + "****"@
    }
}

impl ZotunnelConfig {
    /// The token with all but its first four bytes hidden. The cut is at
    /// byte 4, which must lie between two characters (the byte slice would
    /// panic otherwise).
    pub fn masked_token(&self) -> (r: String)
        requires
            encode_utf8(self.token@).len() <= 4 || is_char_boundary(encode_utf8(self.token@), 4),
        ensures
            r@ == masked(self.token@),
    {
        let t = self.token.as_str();
        if t.as_bytes().len() <= 4 {
            return String::from_str("****");
        }
        let (head, _tail) = t.split_at(4);
        proof {
            encode_utf8_decode_utf8(head@);
        }
        let mut r = head.to_owned();
        r.append("****");
        r
    }
}

/// The tunnel name made from a hex text: `tunnel-{hex}`.
pub fn tunnel_name(hex: &str) -> (r: String)
    ensures
        r@ == "tunnel-"@ + hex@,
{
    let mut s = String::from_str("tunnel-");
    s.append(hex);
    s
}

/// A random tunnel name, `tunnel-` followed by four random bytes in hex;
/// `None` when the system's random source fails.
pub fn generate_name() -> (r: Option<String>)
    ensures
        r matches Some(s) ==> exists|b: Seq<u8>| b.len() == 4 && s@ == "tunnel-"@ + #[trigger] hex_encode(b),
{
    match random_hex(4) {
        None => None,
        Some(h) => Some(tunnel_name(h.as_str())),
    }
}

/// A local address as given when it holds a `:`, else `localhost:{addr}`.
pub open spec fn normalized_addr(addr: Seq<char>) -> Seq<char> {
    if contains(addr, seq![':']) {
        addr
    } else {
        "localhost:"@ + addr
    }
}

pub fn normalize_local_addr(addr: &str) -> (r: String)
    ensures
        r@ == normalized_addr(addr@),
        (exists|i: int| 0 <= i < addr@.len() && addr@[i] == ':') ==> r@ == addr@,
        !(exists|i: int| 0 <= i < addr@.len() && addr@[i] == ':') ==> r@ == "localhost:"@ + addr@,
{
    proof {
        lemma_local_addr(addr@);
    }
    let a = chars_of(addr);
    let colon = vec![':'];
    assert(colon@ =~= seq![':']);
    if contains_exec(a.as_slice(), colon.as_slice()) {
        String::from_str(addr)
    } else {
        let mut s = String::from_str("localhost:");
        s.append(addr);
        s
    }
}

/// An address that holds a `:` (a host and port) is used as given; only a
/// bare port, with no `:` anywhere, is taken as a port on `localhost`.
pub proof fn lemma_local_addr(addr: Seq<char>)
    ensures
        (exists|i: int| 0 <= i < addr.len() && addr[i] == ':') ==> normalized_addr(addr) == addr,
        !(exists|i: int| 0 <= i < addr.len() && addr[i] == ':') ==> normalized_addr(addr)
            == "localhost:"@ + addr,
{
    crate::text::lemma_contains_char(addr, ':');
}

// ─── Background tunnels ──────────────────────────────────────────

/// `$HOME/.zotunnel/tunnels`, where background tunnels keep their files.
pub fn tunnels_dir(home: Option<&str>) -> (r: Option<String>)
    ensures
        home is None ==> r is None,
        home matches Some(h) ==> (r matches Some(d) && d@ == path_join(
            path_join(h@, ".zotunnel"@),
            "tunnels"@,
        )),
{
    match config_dir(home) {
        None => None,
        Some(d) => Some(join_path(d.as_str(), "tunnels")),
    }
}

/// The pid file of a background tunnel.
pub fn pid_path(tunnels_dir: &str, name: &str) -> (r: String)
    ensures
        r@ == path_join(tunnels_dir@, name@ + ".pid"@),
{
    let mut f = String::from_str(name);
    f.append(".pid");
    join_path(tunnels_dir, f.as_str())
}

/// The log file of a background tunnel.
pub fn log_path(tunnels_dir: &str, name: &str) -> (r: String)
    ensures
        r@ == path_join(tunnels_dir@, name@ + ".log"@),
{
    let mut f = String::from_str(name);
    f.append(".log");
    join_path(tunnels_dir, f.as_str())
}

/// The pid a pid file holds: its trimmed text as a number; 0 or anything
/// that is not a number means none.
pub open spec fn pid_in(text: Seq<char>) -> Option<u32> {
    match parse_u32(trim(text)) {
        Some(p) => if p == 0 {
            None
        } else {
            Some(p)
        },
        None => None,
    }
}

pub fn parse_pid(text: &str) -> (r: Option<u32>)
    ensures
        r == pid_in(text@),
{
    let t = chars_of(text);
    let trimmed = trim_chars(t.as_slice());
    match parse_u32_exec(trimmed.as_slice()) {
        Some(p) => if p == 0 {
            None
        } else {
            Some(p)
        },
        None => None,
    }
}

/// The tunnel name of a pid file (`{name}.pid`).
pub fn pid_file_stem(file_name: &str) -> (r: Option<String>)
    ensures
        r is Some <==> crate::text::ends_with(file_name@, ".pid"@),
        r matches Some(s) ==> s@ + ".pid"@ == file_name@,
{
    let f = chars_of(file_name);
    let suffix = chars_of(".pid");
    if !crate::text::ends_with_exec(f.as_slice(), suffix.as_slice()) {
        return None;
    }
    let stem = slice_chars(f.as_slice(), 0, f.len() - suffix.len());
    assert(stem@ + ".pid"@ =~= file_name@);
    Some(string_from_chars(stem.as_slice()))
}

/// The lines of a text (`str::lines`): pieces ending at `\n`, with the `\n`
/// and a `\r` just before it removed; a last piece without `\n` is kept as
/// is, and no empty piece follows a final `\n`.
pub open spec fn lines(text: Seq<char>) -> Seq<Seq<char>> {
    let pieces = split(text, seq!['\n']);
    let body = if pieces.last().len() == 0 {
        pieces.drop_last()
    } else {
        pieces
    };
    Seq::new(
        body.len(),
        |i: int|
            if i < pieces.len() - 1 && body[i].len() > 0 && body[i].last() == '\r' {
                body[i].drop_last()
            } else {
                body[i]
            },
    )
}

/// The text after `Forwarding  ` on the first line that starts with it.
pub open spec fn forwarding_in(ls: Seq<Seq<char>>) -> Option<Seq<char>>
    decreases ls.len(),
{
    if ls.len() == 0 {
        None
    } else if starts_with(ls[0], "Forwarding  "@) {
        Some(ls[0].skip("Forwarding  "@.len() as int))
    } else {
        forwarding_in(ls.drop_first())
    }
}

/// Scan a chunk of a background tunnel's log for the line that announces the
/// public address (`Forwarding  {route} -> http://{addr}`), and return what
/// follows the marker.
pub fn find_forwarding(log: &str) -> (r: Option<String>)
    ensures
        r is Some <==> forwarding_in(lines(log@)) is Some,
        r matches Some(s) ==> s@ == forwarding_in(lines(log@)).unwrap(),
{
    let text = chars_of(log);
    let nl = vec!['\n'];
    assert(nl@ =~= seq!['\n']);
    let pieces = split_exec(text.as_slice(), nl.as_slice());
    let ghost all = views(pieces@);
    proof {
        lemma_split_nonempty(log@, seq!['\n']);
    }
    let n = if pieces[pieces.len() - 1].len() == 0 {
        pieces.len() - 1
    } else {
        pieces.len()
    };
    let ghost ls = lines(log@);
    assert(ls.len() == n);
    let marker = chars_of("Forwarding  ");
    let mut i: usize = 0;
    assert(ls.skip(0) =~= ls);
    while i < n
        invariant
            i <= n <= pieces@.len(),
            all == views(pieces@),
            all == split(log@, seq!['\n']),
            ls == lines(log@),
            ls.len() == n,
            marker@ == "Forwarding  "@,
            forwarding_in(ls) == forwarding_in(ls.skip(i as int)),
        decreases n - i,
    {
        assert(ls.skip(i as int).drop_first() =~= ls.skip(i + 1));
        assert(all[i as int] == pieces@[i as int]@);
        let piece = &pieces[i];
        let line = if i + 1 < pieces.len() && piece.len() > 0 && piece[piece.len() - 1] == '\r' {
            slice_chars(piece.as_slice(), 0, piece.len() - 1)
        } else {
            slice_chars(piece.as_slice(), 0, piece.len())
        };
        assert(line@ =~= ls[i as int]);
        assert(ls.skip(i as int)[0] == ls[i as int]);
        if starts_with_exec(line.as_slice(), marker.as_slice()) {
            let rest = slice_chars(line.as_slice(), marker.len(), line.len());
            assert(rest@ =~= line@.skip(marker@.len() as int));
            return Some(string_from_chars(rest.as_slice()));
        }
        i = i + 1;
    }
    None
}

/// `split` never gives an empty list of pieces.
pub proof fn lemma_split_nonempty(s: Seq<char>, p: Seq<char>)
    ensures
        split(s, p).len() >= 1,
    decreases s.len(),
{
    if p.len() > 0 {
        if let Some(i) = crate::text::find(s, p) {
            crate::text::lemma_find_from_bounds(s, p, 0);
            lemma_split_nonempty(s.skip(i + p.len()), p);
        }
    }
}

// ─── Waiting for a background tunnel ─────────────────────────────

/// How long the parent waits for a background tunnel to connect, in ms.
pub const DETACH_WAIT_MS: u64 = 15_000;

/// What the parent does after looking at a background tunnel once.
#[derive(Debug, Clone, PartialEq, Eq)]
pub enum DetachWait {
    /// The child has exited: report its log as an error.
    Exited,
    /// The child has announced its public address: report it.
    Connected { forwarding: String },
    /// The deadline has passed: report that it is still connecting.
    TimedOut,
    /// Look again after a short pause.
    KeepWaiting,
}

/// One look at a background tunnel, at `now_ms`, given whether the child is
/// alive and the log written since the last look: past the deadline, stop
/// waiting; a dead child has failed; a `Forwarding` line means connected;
/// otherwise wait on.
pub fn detach_wait_step(now_ms: u64, deadline_ms: u64, child_alive: bool, log_chunk: &str) -> (r:
    DetachWait)
    ensures
        now_ms >= deadline_ms ==> r == DetachWait::TimedOut,
        now_ms < deadline_ms && !child_alive ==> r == DetachWait::Exited,
        now_ms < deadline_ms && child_alive && forwarding_in(lines(log_chunk@)) is None ==> r
            == DetachWait::KeepWaiting,
        now_ms < deadline_ms && child_alive && forwarding_in(lines(log_chunk@)) is Some ==> (r matches DetachWait::Connected { forwarding } && forwarding@
            == forwarding_in(lines(log_chunk@)).unwrap()),
{
    if now_ms >= deadline_ms {
        return DetachWait::TimedOut;
    }
    if !child_alive {
        return DetachWait::Exited;
    }
    match find_forwarding(log_chunk) {
        Some(f) => DetachWait::Connected { forwarding: f },
        None => DetachWait::KeepWaiting,
    }
}

// ─── Reconnecting ────────────────────────────────────────────────

/// The longest wait between reconnect attempts, in seconds.
pub const MAX_BACKOFF_SECS: u64 = 30;

/// The wait after `b` seconds: doubled, at most 30 seconds.
pub open spec fn next_backoff(b: u64) -> u64 {
    if b * 2 < MAX_BACKOFF_SECS {
        (b * 2) as u64
    } else {
        MAX_BACKOFF_SECS
    }
}

/// The wait before the `n`-th reconnect (counting from 0) of a policy that
/// starts at one second and has never been cancelled.
pub open spec fn backoff_after(n: nat) -> u64
    decreases n,
{
    if n == 0 {
        1
    } else {
        next_backoff(backoff_after((n - 1) as nat))
    }
}

/// The reconnect waits are 1, 2, 4, 8 and 16 seconds, and 30 seconds from
/// then on.
pub proof fn lemma_backoff_schedule(n: nat)
    ensures
        n == 0 ==> backoff_after(n) == 1,
        n == 1 ==> backoff_after(n) == 2,
        n == 2 ==> backoff_after(n) == 4,
        n == 3 ==> backoff_after(n) == 8,
        n == 4 ==> backoff_after(n) == 16,
        n >= 5 ==> backoff_after(n) == MAX_BACKOFF_SECS,
    decreases n,
{
    if n > 0 {
        lemma_backoff_schedule((n - 1) as nat);
    }
}

/// What to do when a tunnel session has ended.
#[derive(Debug, Clone, Copy, PartialEq, Eq, Structural)]
pub enum ReconnectAction {
    /// Stop: the user cancelled.
    Stop,
    /// Wait this many seconds (unless cancelled meanwhile), then reconnect.
    Retry { wait_secs: u64 },
}

/// The reconnect policy: wait 1 second after the first session ends, then
/// twice as long after each further one, up to 30 seconds.
#[derive(Debug, Clone, Copy, PartialEq, Eq, Structural)]
pub struct Reconnect {
    backoff_secs: u64,
}

impl View for Reconnect {
    type V = u64;

    /// The wait, in seconds, before the next reconnect.
    closed spec fn view(&self) -> u64 {
        self.backoff_secs
    }
}

impl Reconnect {
    /// The wait is always between 1 and 30 seconds.
    #[verifier::type_invariant]
    spec fn wait_in_range(self) -> bool {
        1 <= self.backoff_secs <= MAX_BACKOFF_SECS
    }

    pub fn new() -> (r: Self)
        ensures
            r@ == 1,
    {
        Reconnect { backoff_secs: 1 }
    }

    /// The wait, in seconds, before the next reconnect.
    pub fn backoff_secs(&self) -> (r: u64)
        ensures
            r == self@,
            1 <= r <= MAX_BACKOFF_SECS,
    {
        proof {
            use_type_invariant(self);
        }
        self.backoff_secs
    }

    /// A session ended, cleanly or with an error: stop when cancelled,
    /// otherwise wait the current backoff and double it for next time.
    pub fn session_ended(&mut self, cancelled: bool) -> (r: ReconnectAction)
        ensures
            1 <= final(self)@ <= MAX_BACKOFF_SECS,
            cancelled ==> r == ReconnectAction::Stop && final(self)@ == old(self)@,
            !cancelled ==> r == (ReconnectAction::Retry { wait_secs: old(self)@ })
                && final(self)@ == next_backoff(old(self)@),
    {
        proof {
            use_type_invariant(&*self);
        }
        if cancelled {
            return ReconnectAction::Stop;
        }
        let wait = self.backoff_secs;
        let doubled = self.backoff_secs * 2;
        self.backoff_secs = if doubled < MAX_BACKOFF_SECS {
            doubled
        } else {
            MAX_BACKOFF_SECS
        };
        proof {
            use_type_invariant(&*self);
        }
        ReconnectAction::Retry { wait_secs: wait }
    }
}

} // verus!

verus! {

/// Lexicographic order on character sequences (the order of `String`s).
pub open spec fn chars_le(a: Seq<char>, b: Seq<char>) -> bool
    decreases a.len(),
{
    if a.len() == 0 {
        true
    } else if b.len() == 0 {
        false
    } else if a[0] != b[0] {
        a[0] < b[0]
    } else {
        chars_le(a.drop_first(), b.drop_first())
    }
}

/// Any two sequences are ordered one way or the other.
pub proof fn lemma_chars_le_total(a: Seq<char>, b: Seq<char>)
    ensures
        chars_le(a, b) || chars_le(b, a),
    decreases a.len(),
{
    if a.len() > 0 && b.len() > 0 && a[0] == b[0] {
        lemma_chars_le_total(a.drop_first(), b.drop_first());
    }
}

/// The order is transitive.
pub proof fn lemma_chars_le_transitive(a: Seq<char>, b: Seq<char>, c: Seq<char>)
    requires
        chars_le(a, b),
        chars_le(b, c),
    ensures
        chars_le(a, c),
    decreases a.len(),
{
    if a.len() > 0 && b.len() > 0 && c.len() > 0 && a[0] == b[0] && b[0] == c[0] {
        lemma_chars_le_transitive(a.drop_first(), b.drop_first(), c.drop_first());
    }
}

/// `a` comes no later than `b`.
pub fn chars_le_exec(a: &[char], b: &[char]) -> (r: bool)
    ensures
        r == chars_le(a@, b@),
{
    let mut i: usize = 0;
    assert(a@.skip(0) =~= a@);
    assert(b@.skip(0) =~= b@);
    while i < a.len() && i < b.len() && a[i] == b[i]
        invariant
            i <= a.len(),
            i <= b.len(),
            chars_le(a@, b@) == chars_le(a@.skip(i as int), b@.skip(i as int)),
        decreases a.len() - i,
    {
        assert(a@.skip(i as int).drop_first() =~= a@.skip(i + 1));
        assert(b@.skip(i as int).drop_first() =~= b@.skip(i + 1));
        i = i + 1;
    }
    if i == a.len() {
        true
    } else if i == b.len() {
        false
    } else {
        a[i] < b[i]
    }
}

/// Ordered by name.
pub open spec fn sorted_by_name(v: Seq<(String, u32)>) -> bool {
    forall|i: int, j: int| 0 <= i < j < v.len() ==> chars_le(#[trigger] v[i].0@, #[trigger] v[j].0@)
}

/// Sort the running tunnels by name.
pub fn sort_by_name(entries: Vec<(String, u32)>) -> (r: Vec<(String, u32)>)
    ensures
        r@.to_multiset() == entries@.to_multiset(),
        sorted_by_name(r@),
{
    broadcast use vstd::seq_lib::group_to_multiset_ensures;

    let mut rest = entries;
    let mut out: Vec<(String, u32)> = Vec::new();
    let ghost original = rest@;
    while rest.len() > 0
        invariant
            out@.to_multiset().add(rest@.to_multiset()) == original.to_multiset(),
            sorted_by_name(out@),
            forall|i: int, j: int|
                0 <= i < out@.len() && 0 <= j < rest@.len() ==> chars_le(
                    #[trigger] out@[i].0@,
                    #[trigger] rest@[j].0@,
                ),
        decreases rest.len(),
    {
        let mut m: usize = 0;
        let mut k: usize = 1;
        proof {
            lemma_chars_le_total(rest@[0].0@, rest@[0].0@);
        }
        while k < rest.len()
            invariant
                0 < rest@.len(),
                m < rest@.len(),
                1 <= k <= rest@.len(),
                forall|j: int| 0 <= j < k ==> chars_le(rest@[m as int].0@, #[trigger] rest@[j].0@),
            decreases rest.len() - k,
        {
            let a = chars_of(rest[k].0.as_str());
            let b = chars_of(rest[m].0.as_str());
            if !chars_le_exec(b.as_slice(), a.as_slice()) {
                proof {
                    lemma_chars_le_total(rest@[m as int].0@, rest@[k as int].0@);
                    assert forall|j: int| 0 <= j < k + 1 implies chars_le(
                        rest@[k as int].0@,
                        #[trigger] rest@[j].0@,
                    ) by {
                        if j < k {
                            lemma_chars_le_transitive(
                                rest@[k as int].0@,
                                rest@[m as int].0@,
                                rest@[j].0@,
                            );
                        } else {
                            lemma_chars_le_total(rest@[j].0@, rest@[j].0@);
                        }
                    }
                }
                m = k;
            }
            k = k + 1;
        }
        let ghost before_rest = rest@;
        let ghost before_out = out@;
        let x = rest.remove(m);
        proof {
            before_rest.to_multiset_ensures();
            before_out.to_multiset_ensures();
        }
        out.push(x);
        assert forall|i: int, j: int| 0 <= i < out@.len() && 0 <= j < rest@.len() implies chars_le(
            #[trigger] out@[i].0@,
            #[trigger] rest@[j].0@,
        ) by {
            let jj = if j < m { j } else { j + 1 };
            assert(rest@[j] == before_rest[jj]);
            if i < before_out.len() {
                assert(out@[i] == before_out[i]);
            }
        }
        assert forall|i: int, j: int| 0 <= i < j < out@.len() implies chars_le(
            #[trigger] out@[i].0@,
            #[trigger] out@[j].0@,
        ) by {
            if j == out@.len() - 1 {
                assert(out@[i] == before_out[i]);
                assert(chars_le(before_out[i].0@, before_rest[m as int].0@));
            } else {
                assert(out@[i] == before_out[i]);
                assert(out@[j] == before_out[j]);
            }
        }
        assert(before_rest.to_multiset().contains(before_rest[m as int]));
    }
    assert(rest@ =~= Seq::<(String, u32)>::empty());
    out
}

} // verus!
