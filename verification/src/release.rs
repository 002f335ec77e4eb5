//! Release and installation helpers: version comparison, release asset
//! names, the GitHub API answer, the systemd unit, and install locations.

use crate::text::{
    chars_of, contains, contains_exec, decimal, digit_char, eq_ignore_ascii_case,
    eq_ignore_ascii_case_exec, is_digit,
    join_path, opt_chars, path_join, slice_chars, split, split_exec, str_eq, trim, trim_chars, views,
};
use vstd::prelude::*;
use vstd::string::*;

verus! {

// ─── Numbers in text ─────────────────────────────────────────────

/// Every character is an ASCII digit.
pub open spec fn all_digits(d: Seq<char>) -> bool {
    forall|i: int| 0 <= i < d.len() ==> is_digit(#[trigger] d[i])
}

/// The number a string of decimal digits stands for.
pub open spec fn digits_value(d: Seq<char>) -> nat
    decreases d.len(),
{
    if d.len() == 0 {
        0
    } else {
        digits_value(d.drop_last()) * 10 + ((d.last() as int - '0' as int) as nat)
    }
}

/// `str::parse::<u32>`: an optional `+` followed by at least one ASCII digit,
/// whose value fits in 32 bits.
pub open spec fn parse_u32(s: Seq<char>) -> Option<u32> {
    let d = if s.len() > 0 && s[0] == '+' {
        s.drop_first()
    } else {
        s
    };
    if d.len() > 0 && all_digits(d) && digits_value(d) <= u32::MAX {
        Some(digits_value(d) as u32)
    } else {
        None
    }
}

/// `str::parse::<u32>`.
pub fn parse_u32_exec(s: &[char]) -> (r: Option<u32>)
    ensures
        r == parse_u32(s@),
{
    let start: usize = if s.len() > 0 && s[0] == '+' {
        1
    } else {
        0
    };
    let ghost d = if s@.len() > 0 && s@[0] == '+' {
        s@.drop_first()
    } else {
        s@
    };
    assert(d =~= s@.skip(start as int));
    if start >= s.len() {
        return None;
    }
    let mut value: u64 = 0;
    let mut overflow = false;
    let mut i = start;
    while i < s.len()
        invariant
            start <= i <= s.len(),
            d == s@.skip(start as int),
            d == (if s@.len() > 0 && s@[0] == '+' {
                s@.drop_first()
            } else {
                s@
            }),
            all_digits(s@.subrange(start as int, i as int)),
            !overflow ==> value == digits_value(s@.subrange(start as int, i as int)) && value
                <= u32::MAX,
            overflow ==> digits_value(s@.subrange(start as int, i as int)) > u32::MAX,
        decreases s.len() - i,
    {
        let c = s[i];
        if !('0' <= c && c <= '9') {
            assert(d[i - start] == c);
            assert(!is_digit(d[i - start]));
            assert(!all_digits(d));
            return None;
        }
        let ghost prev = s@.subrange(start as int, i as int);
        let ghost next = s@.subrange(start as int, i + 1);
        assert(next.drop_last() =~= prev);
        let digit = (c as u32 - '0' as u32) as u64;
        if !overflow {
            value = value * 10 + digit;
            if value > 0xffff_ffff {
                overflow = true;
            }
        }
        assert forall|k: int| 0 <= k < next.len() implies is_digit(#[trigger] next[k]) by {
            if k < prev.len() {
                assert(next[k] == prev[k]);
            }
        }
        i = i + 1;
    }
    assert(s@.subrange(start as int, s.len() as int) =~= d);
    if overflow {
        None
    } else {
        Some(value as u32)
    }
}

// ─── Version comparison ──────────────────────────────────────────

/// `s.strip_prefix('v').unwrap_or(s)`.
pub open spec fn strip_v(s: Seq<char>) -> Seq<char> {
    if s.len() > 0 && s[0] == 'v' {
        s.drop_first()
    } else {
        s
    }
}

/// The numbers among the pieces, in order; pieces that do not parse are skipped.
pub open spec fn parsed_parts(pieces: Seq<Seq<char>>) -> Seq<u32>
    decreases pieces.len(),
{
    if pieces.len() == 0 {
        Seq::empty()
    } else {
        match parse_u32(pieces.last()) {
            Some(v) => parsed_parts(pieces.drop_last()).push(v),
            None => parsed_parts(pieces.drop_last()),
        }
    }
}

/// The `i`-th number, or 0 when there are fewer.
pub open spec fn part_or_zero(p: Seq<u32>, i: int) -> u32 {
    if i < p.len() {
        p[i]
    } else {
        0
    }
}

/// The (major, minor, patch) triple of a version string: a leading `v` is
/// dropped, the rest is split at `.`, the pieces that parse as numbers are
/// kept and the first three taken, missing ones counting as 0.
pub open spec fn version_triple(s: Seq<char>) -> (u32, u32, u32) {
    let p = parsed_parts(split(strip_v(s), seq!['.']));
    (part_or_zero(p, 0), part_or_zero(p, 1), part_or_zero(p, 2))
}

/// Lexicographic "greater than" on triples.
pub open spec fn triple_gt(a: (u32, u32, u32), b: (u32, u32, u32)) -> bool {
    ||| a.0 > b.0
    ||| a.0 == b.0 && a.1 > b.1
    ||| a.0 == b.0 && a.1 == b.1 && a.2 > b.2
}

/// `latest` is a newer version than `current`.
pub open spec fn newer(current: Seq<char>, latest: Seq<char>) -> bool {
    triple_gt(version_triple(latest), version_triple(current))
}

/// The version triple of a version string.
pub fn version_triple_exec(s: &str) -> (r: (u32, u32, u32))
    ensures
        r == version_triple(s@),
{
    let cs = chars_of(s);
    let body = if cs.len() > 0 && cs[0] == 'v' {
        slice_chars(cs.as_slice(), 1, cs.len())
    } else {
        slice_chars(cs.as_slice(), 0, cs.len())
    };
    assert(body@ =~= strip_v(s@));
    let dot = vec!['.'];
    assert(dot@ =~= seq!['.']);
    let pieces = split_exec(body.as_slice(), dot.as_slice());
    let ghost all = views(pieces@);
    let mut parts: Vec<u32> = Vec::new();
    let mut i: usize = 0;
    while i < pieces.len()
        invariant
            i <= pieces@.len(),
            all == views(pieces@),
            parts@ == parsed_parts(all.take(i as int)),
        decreases pieces.len() - i,
    {
        assert(all.take(i + 1).drop_last() =~= all.take(i as int));
        assert(all[i as int] == pieces@[i as int]@);
        match parse_u32_exec(pieces[i].as_slice()) {
            Some(v) => parts.push(v),
            None => {},
        }
        i = i + 1;
    }
    assert(all.take(pieces.len() as int) =~= all);
    let a = if parts.len() > 0 { parts[0] } else { 0 };
    let b = if parts.len() > 1 { parts[1] } else { 0 };
    let c = if parts.len() > 2 { parts[2] } else { 0 };
    (a, b, c)
}

/// Compare two semver strings, stripping leading 'v'.
/// Returns true if `latest` is newer than `current`.
pub fn is_newer(current: &str, latest: &str) -> (r: bool)
    ensures
        r == newer(current@, latest@),
{
    let l = version_triple_exec(latest);
    let c = version_triple_exec(current);
    l.0 > c.0 || (l.0 == c.0 && l.1 > c.1) || (l.0 == c.0 && l.1 == c.1 && l.2 > c.2)
}

/// A decimal digit character stands for its digit.
proof fn lemma_digit_char(d: int)
    requires
        0 <= d < 10,
    ensures
        is_digit(digit_char(d)),
        digit_char(d) as int - '0' as int == d,
{
}

/// The decimal text of a number is a non-empty string of digits whose value
/// is the number.
proof fn lemma_decimal_digits(n: nat)
    ensures
        decimal(n).len() > 0,
        all_digits(decimal(n)),
        digits_value(decimal(n)) == n,
    decreases n,
{
    if n < 10 {
        lemma_digit_char(n as int);
        let d = decimal(n);
        assert(d.drop_last() =~= Seq::<char>::empty());
        assert(d.last() == digit_char(n as int));
        assert(digits_value(d) == digits_value(d.drop_last()) * 10 + ((d.last() as int
            - '0' as int) as nat));
    } else {
        lemma_decimal_digits(n / 10);
        lemma_digit_char((n % 10) as int);
        let d = decimal(n);
        assert(d.drop_last() =~= decimal(n / 10));
        assert forall|i: int| 0 <= i < d.len() implies is_digit(#[trigger] d[i]) by {
            if i < d.len() - 1 {
                assert(d[i] == decimal(n / 10)[i]);
            }
        }
        assert(d.last() == digit_char((n % 10) as int));
        assert(digits_value(d) == digits_value(d.drop_last()) * 10 + ((d.last() as int
            - '0' as int) as nat));
        assert((n / 10) * 10 + n % 10 == n) by (nonlinear_arith);
    }
}

/// The decimal text of a number parses back as that number.
proof fn lemma_parse_decimal(n: u32)
    ensures
        parse_u32(decimal(n as nat)) == Some(n),
        forall|i: int| 0 <= i < decimal(n as nat).len() ==> is_digit(#[trigger] decimal(n as nat)[i]),
{
    lemma_decimal_digits(n as nat);
    assert(is_digit(decimal(n as nat)[0]));
}

/// A version written as three numbers, `a.b.c`, with or without a leading
/// `v`, reads back as exactly those numbers, whatever their size: no
/// component is dropped or changed.
pub proof fn lemma_version_triple_of_numbers(a: u32, b: u32, c: u32)
    ensures
        version_triple(decimal(a as nat) + seq!['.'] + decimal(b as nat) + seq!['.'] + decimal(
            c as nat,
        )) == (a, b, c),
        version_triple(seq!['v'] + decimal(a as nat) + seq!['.'] + decimal(b as nat) + seq!['.']
            + decimal(c as nat)) == (a, b, c),
{
    let da = decimal(a as nat);
    let db = decimal(b as nat);
    let dc = decimal(c as nat);
    lemma_parse_decimal(a);
    lemma_parse_decimal(b);
    lemma_parse_decimal(c);
    assert forall|i: int| 0 <= i < da.len() implies da[i] != '.' by {
        assert(is_digit(da[i]));
    }
    assert forall|i: int| 0 <= i < db.len() implies db[i] != '.' by {
        assert(is_digit(db[i]));
    }
    assert forall|i: int| 0 <= i < dc.len() implies dc[i] != '.' by {
        assert(is_digit(dc[i]));
    }
    let s = da + seq!['.'] + db + seq!['.'] + dc;
    let rest = db + seq!['.'] + dc;
    assert(s =~= da + seq!['.'] + rest);
    crate::text::lemma_split_first_piece(da, '.', rest);
    crate::text::lemma_split_first_piece(db, '.', dc);
    crate::text::lemma_split_single_piece(dc, '.');
    let pieces = split(s, seq!['.']);
    assert(pieces =~= seq![da, db, dc]);
    assert(is_digit(s[0]));
    assert(strip_v(s) == s);
    assert(pieces.drop_last() =~= seq![da, db]);
    assert(pieces.drop_last().drop_last() =~= seq![da]);
    assert(pieces.drop_last().drop_last().drop_last() =~= Seq::<Seq<char>>::empty());
    let p = parsed_parts(pieces);
    assert(seq![da].drop_last() =~= Seq::<Seq<char>>::empty());
    assert(seq![da].last() == da);
    assert(parsed_parts(Seq::<Seq<char>>::empty()) =~= Seq::<u32>::empty());
    assert(parse_u32(seq![da].last()) == Some(a));
    assert(parsed_parts(seq![da]) =~= seq![a]);
    assert(seq![da, db].last() == db);
    assert(seq![da, db].drop_last() =~= seq![da]);
    assert(parsed_parts(seq![da, db]) =~= seq![a, b]);
    assert(p =~= seq![a, b, c]);
    let vs = seq!['v'] + da + seq!['.'] + db + seq!['.'] + dc;
    assert(strip_v(vs) =~= s);
}

/// No version is newer than itself.
pub proof fn lemma_newer_irreflexive(v: Seq<char>)
    ensures
        !newer(v, v),
{
}

/// Of two versions, at most one is newer than the other.
pub proof fn lemma_newer_asymmetric(a: Seq<char>, b: Seq<char>)
    ensures
        !(newer(a, b) && newer(b, a)),
{
}

/// "Newer than" is transitive.
pub proof fn lemma_newer_transitive(a: Seq<char>, b: Seq<char>, c: Seq<char>)
    requires
        newer(a, b),
        newer(b, c),
    ensures
        newer(a, c),
{
}

/// Two versions with the same numbers are never newer than one another, and
/// of two versions with different numbers one is newer.
pub proof fn lemma_newer_total(a: Seq<char>, b: Seq<char>)
    ensures
        version_triple(a) == version_triple(b) <==> !newer(a, b) && !newer(b, a),
{
}

/// A single leading `v` makes no difference, on either side.
pub proof fn lemma_newer_ignores_v_prefix(x: Seq<char>, y: Seq<char>)
    requires
        !(x.len() > 0 && x[0] == 'v'),
    ensures
        newer(seq!['v'] + x, y) == newer(x, y),
        newer(y, seq!['v'] + x) == newer(y, x),
{
    assert((seq!['v'] + x).drop_first() =~= x);
}

} // verus!

verus! {

// ─── Release assets ──────────────────────────────────────────────

/// The GitHub repository that publishes releases.
pub const REPO: &'static str = "Zobite/zo-tunnel";

/// Where the server binary is installed.
pub const SERVER_INSTALL_DIR: &'static str = "/usr/local/bin";

/// Why the running platform has no release asset.
#[derive(Debug, Clone, Copy, PartialEq, Eq, Structural)]
pub enum TargetError {
    UnsupportedOs,
    UnsupportedArch,
}

/// The asset label of an operating system (`std::env::consts::OS`).
pub open spec fn os_label(os: Seq<char>) -> Option<Seq<char>> {
    if os == "linux"@ {
        Some("linux"@)
    } else if os == "macos"@ {
        Some("darwin"@)
    } else {
        None
    }
}

/// The asset label of a CPU architecture (`std::env::consts::ARCH`).
pub open spec fn arch_label(arch: Seq<char>) -> Option<Seq<char>> {
    if arch == "x86_64"@ {
        Some("amd64"@)
    } else if arch == "aarch64"@ {
        Some("arm64"@)
    } else {
        None
    }
}

/// The `os-arch` label of release assets for a platform; an unknown
/// operating system is reported before an unknown architecture.
pub fn detect_target(os: &str, arch: &str) -> (r: Result<String, TargetError>)
    ensures
        os_label(os@) is None ==> r == Err::<String, TargetError>(TargetError::UnsupportedOs),
        os_label(os@) is Some && arch_label(arch@) is None ==> r == Err::<String, TargetError>(
            TargetError::UnsupportedArch,
        ),
        os_label(os@) is Some && arch_label(arch@) is Some ==> (r matches Ok(t) && t@
            == os_label(os@).unwrap() + "-"@ + arch_label(arch@).unwrap()),
{
    let os_label_str = if str_eq(os, "linux") {
        "linux"
    } else if str_eq(os, "macos") {
        "darwin"
    } else {
        return Err(TargetError::UnsupportedOs);
    };
    let arch_label_str = if str_eq(arch, "x86_64") {
        "amd64"
    } else if str_eq(arch, "aarch64") {
        "arm64"
    } else {
        return Err(TargetError::UnsupportedArch);
    };
    let mut t = String::from_str(os_label_str);
    t.append("-");
    t.append(arch_label_str);
    Ok(t)
}

/// Release assets are labelled by platform without mix-ups: `amd64` is the
/// label of `x86_64` and of nothing else, `arm64` that of `aarch64` and of
/// nothing else, `linux` that of Linux and `darwin` that of macOS; no label
/// serves two architectures or two systems.
pub proof fn lemma_platform_labels(os: Seq<char>, arch: Seq<char>, other_os: Seq<char>, other_arch: Seq<char>)
    ensures
        arch_label(arch) == Some("amd64"@) <==> arch == "x86_64"@,
        arch_label(arch) == Some("arm64"@) <==> arch == "aarch64"@,
        arch_label(arch) is Some ==> arch_label(arch) == Some("amd64"@) || arch_label(arch) == Some(
            "arm64"@,
        ),
        os_label(os) == Some("linux"@) <==> os == "linux"@,
        os_label(os) == Some("darwin"@) <==> os == "macos"@,
        os_label(os) is Some ==> os_label(os) == Some("linux"@) || os_label(os) == Some("darwin"@),
        arch_label(arch) is Some && arch_label(arch) == arch_label(other_arch) ==> arch == other_arch,
        os_label(os) is Some && os_label(os) == os_label(other_os) ==> os == other_os,
{
    reveal_strlit("amd64");
    reveal_strlit("arm64");
    reveal_strlit("x86_64");
    reveal_strlit("aarch64");
    reveal_strlit("linux");
    reveal_strlit("darwin");
    reveal_strlit("macos");
    assert("amd64"@[1] != "arm64"@[1]);
    assert("linux"@ != "darwin"@) by {
        assert("linux"@[0] != "darwin"@[0]);
    }
    assert("x86_64"@ != "aarch64"@) by {
        assert("x86_64"@[0] != "aarch64"@[0]);
    }
    assert("linux"@ != "macos"@) by {
        assert("linux"@[0] != "macos"@[0]);
    }
}

/// The URL of the GitHub API answer that names the latest release.
pub fn latest_release_api_url() -> (r: String)
    ensures
        r@ == "https://api.github.com/repos/"@ + REPO@ + "/releases/latest"@,
{
    let mut u = String::from_str("https://api.github.com/repos/");
    u.append(REPO);
    u.append("/releases/latest");
    u
}

/// The tag named in a GitHub "latest release" answer: the text between the
/// first and second double quote after the first `"tag_name"`.
pub open spec fn release_tag(body: Seq<char>) -> Option<Seq<char>> {
    let after = split(body, "\"tag_name\""@);
    if after.len() > 1 {
        let quoted = split(after[1], seq!['"']);
        if quoted.len() > 1 {
            Some(quoted[1])
        } else {
            None
        }
    } else {
        None
    }
}

/// Extract the release tag (e.g. "v0.4.1") from the GitHub API answer.
pub fn parse_release_tag(body: &str) -> (r: Option<String>)
    ensures
        r is Some <==> release_tag(body@) is Some,
        r matches Some(t) ==> t@ == release_tag(body@).unwrap(),
{
    let b = chars_of(body);
    let key = chars_of("\"tag_name\"");
    proof {
        reveal_strlit("\"tag_name\"");
    }
    let after = split_exec(b.as_slice(), key.as_slice());
    if after.len() <= 1 {
        return None;
    }
    let quote = vec!['"'];
    assert(quote@ =~= seq!['"']);
    assert(views(after@)[1] == after@[1]@);
    let quoted = split_exec(after[1].as_slice(), quote.as_slice());
    if quoted.len() <= 1 {
        return None;
    }
    assert(views(quoted@)[1] == quoted@[1]@);
    Some(crate::text::string_from_chars(quoted[1].as_slice()))
}

/// `{binary}-{tag}-{target}.tar.gz`: the release asset of a binary.
pub fn release_tarball(binary_name: &str, tag: &str, target: &str) -> (r: String)
    ensures
        r@ == binary_name@ + "-"@ + tag@ + "-"@ + target@ + ".tar.gz"@,
{
    let mut t = String::from_str(binary_name);
    t.append("-");
    t.append(tag);
    t.append("-");
    t.append(target);
    t.append(".tar.gz");
    t
}

/// The download URL of a release asset.
pub fn release_download_url(tag: &str, tarball: &str) -> (r: String)
    ensures
        r@ == "https://github.com/"@ + REPO@ + "/releases/download/"@ + tag@ + "/"@ + tarball@,
{
    let mut u = String::from_str("https://github.com/");
    u.append(REPO);
    u.append("/releases/download/");
    u.append(tag);
    u.append("/");
    u.append(tarball);
    u
}

/// The binary is the server (its name contains "server"), which is
/// restarted as a service after an upgrade; clients reconnect instead.
pub fn is_server_binary(binary_name: &str) -> (r: bool)
    ensures
        r == contains(binary_name@, "server"@),
{
    let n = chars_of(binary_name);
    let k = chars_of("server");
    contains_exec(n.as_slice(), k.as_slice())
}

// ─── Install locations ───────────────────────────────────────────

/// `$HOME/.zotunnel/bin`.
pub open spec fn client_bin_dir(home: Seq<char>) -> Seq<char> {
    path_join(path_join(home, ".zotunnel"@), "bin"@)
}

/// Return the client install directory `~/.zotunnel/bin/`, given `$HOME`
/// (`None` when the variable is not set).
pub fn client_install_dir(home: Option<&str>) -> (r: Option<String>)
    ensures
        home is None ==> r is None,
        home matches Some(h) ==> (r matches Some(d) && d@ == client_bin_dir(h@)),
{
    match home {
        None => None,
        Some(h) => {
            let d = join_path(h, ".zotunnel");
            Some(join_path(d.as_str(), "bin"))
        },
    }
}

/// A binary name that belongs to the client.
pub open spec fn is_client_binary(name: Seq<char>) -> bool {
    name == "zotunnel"@ || contains(name, "client"@)
}

/// Where a binary is (re)installed, given the directory of the running
/// executable (if known) and `$HOME`: the executable's own directory unless
/// it is a build directory (contains `/target/`); otherwise the client
/// directory for the client, `/usr/local/bin` for everything else. `None`
/// when the client directory is needed and `$HOME` is not set.
pub open spec fn install_dir(
    binary_name: Seq<char>,
    exe_dir: Option<Seq<char>>,
    home: Option<Seq<char>>,
) -> Option<Seq<char>> {
    if exe_dir is Some && !contains(exe_dir.unwrap(), "/target/"@) {
        exe_dir
    } else if is_client_binary(binary_name) {
        match home {
            Some(h) => Some(client_bin_dir(h)),
            None => None,
        }
    } else {
        Some(SERVER_INSTALL_DIR@)
    }
}

/// Detect the install directory from the currently running binary.
/// Falls back to the appropriate default based on binary name.
pub fn detect_install_dir(binary_name: &str, exe_dir: Option<&str>, home: Option<&str>) -> (r:
    Option<String>)
    ensures
        r is Some <==> install_dir(binary_name@, opt_chars(exe_dir), opt_chars(home)) is Some,
        r matches Some(d) ==> d@ == install_dir(
            binary_name@,
            opt_chars(exe_dir),
            opt_chars(home),
        ).unwrap(),
{
    if let Some(d) = exe_dir {
        let dc = chars_of(d);
        let t = chars_of("/target/");
        if !contains_exec(dc.as_slice(), t.as_slice()) {
            return Some(String::from_str(d));
        }
    }
    let n = chars_of(binary_name);
    let c = chars_of("client");
    if str_eq(binary_name, "zotunnel") || contains_exec(n.as_slice(), c.as_slice()) {
        client_install_dir(home)
    } else {
        Some(String::from_str(SERVER_INSTALL_DIR))
    }
}

// ─── Service and uninstall ───────────────────────────────────────

/// The name of the systemd service.
pub const SERVICE_NAME: &'static str = "zo-tunnel";

/// The path of the systemd unit file.
pub const SERVICE_PATH: &'static str = "/etc/systemd/system/zo-tunnel.service";

/// The systemd unit text for a server binary at `binary_path`.
pub open spec fn unit_text(binary_path: Seq<char>) -> Seq<char> {
    "[Unit]\nDescription=Zo Tunnel Server\nAfter=network.target\n\n[Service]\nType=simple\nExecStart="@
        + binary_path
        + " start --foreground\nRestart=on-failure\nRestartSec=5\nStandardOutput=journal\nStandardError=journal\n\n[Install]\nWantedBy=multi-user.target\n"@
}

/// Generate the systemd unit file content.
pub fn systemd_unit_content(binary_path: &str) -> (r: String)
    ensures
        r@ == unit_text(binary_path@),
{
    let mut u = String::from_str(
        "[Unit]\nDescription=Zo Tunnel Server\nAfter=network.target\n\n[Service]\nType=simple\nExecStart=",
    );
    u.append(binary_path);
    u.append(
        " start --foreground\nRestart=on-failure\nRestartSec=5\nStandardOutput=journal\nStandardError=journal\n\n[Install]\nWantedBy=multi-user.target\n",
    );
    u
}

/// The answer to "Continue? (y/N)" is yes: `y` or `Y`, ignoring white space
/// around it.
pub fn is_confirmation(input: &str) -> (r: bool)
    ensures
        r == eq_ignore_ascii_case(trim(input@), "y"@),
{
    let i = chars_of(input);
    let t = trim_chars(i.as_slice());
    let y = chars_of("y");
    eq_ignore_ascii_case_exec(t.as_slice(), y.as_slice())
}

/// Component type for uninstall behavior.
#[derive(Debug, Clone, Copy, PartialEq, Eq, Structural)]
pub enum Component {
    Server,
    Client,
}

/// What an uninstall removes besides the binary.
#[derive(Debug, Clone, Copy, PartialEq, Eq, Structural)]
pub struct UninstallPlan {
    /// Stop and disable the systemd service, and remove its unit file.
    pub remove_service: bool,
    /// Remove the system config directory `/etc/zo-tunnel`.
    pub remove_system_config: bool,
    /// Remove the client's `~/.zotunnel` directory (config and binaries).
    pub remove_client_dir: bool,
}

/// What an uninstall removes: the server's service always, and its config
/// unless it is kept; the client's own directory unless the config is kept.
pub fn uninstall_plan(component: Component, keep_config: bool) -> (r: UninstallPlan)
    ensures
        r.remove_service == (component == Component::Server),
        r.remove_system_config == (component == Component::Server && !keep_config),
        r.remove_client_dir == (component == Component::Client && !keep_config),
{
    match component {
        Component::Server => UninstallPlan {
            remove_service: true,
            remove_system_config: !keep_config,
            remove_client_dir: false,
        },
        Component::Client => UninstallPlan {
            remove_service: false,
            remove_system_config: false,
            remove_client_dir: !keep_config,
        },
    }
}

} // verus!
