use crate::api::RealityCheckResponse;
use crate::errors::{is_unauthorized, ApiError};
use crate::text::{
    chars_of, decimal_text, line_at, next_newline, skip_space_back_exec, skip_space_exec, string_of_range,
    text_lines, trimmed,
};
use vstd::prelude::*;
use vstd::string::StringExecFns;

verus! {

/// `s` begins with `p`.
pub open spec fn starts_with(s: Seq<char>, p: Seq<char>) -> bool {
    p.len() <= s.len() && s.subrange(0, p.len() as int) == p
}

/// A web root without surrounding whitespace, with a leading and a trailing slash.
pub open spec fn clean_root(s: Seq<char>) -> Seq<char> {
    let t = trimmed(s);
    let a = if t.len() > 0 && t[0] == '/' {
        t
    } else {
        seq!['/'] + t
    };
    if a.last() == '/' {
        a
    } else {
        a.push('/')
    }
}

/// The web root without surrounding whitespace, with a leading and a trailing slash.
pub fn clean_web_root(web_root: &str) -> (r: String)
    ensures
        r@ == clean_root(web_root@),
{
    let cs = chars_of(web_root);
    let a = skip_space_exec(&cs, 0);
    let e = skip_space_back_exec(&cs, cs.len());
    let mut out: Vec<char> = Vec::new();
    if !(a < e && cs[a] == '/') {
        out.push('/');
    }
    let mut i = a;
    while i < e
        invariant
            a <= i <= e || (e <= a && i == a),
            e <= cs@.len(),
            out@ == (if a < e && cs@[a as int] == '/' {
                Seq::<char>::empty()
            } else {
                seq!['/']
            }) + cs@.subrange(a as int, i as int),
        decreases e - i,
    {
        out.push(cs[i]);
        i += 1;
        assert(out@ =~= (if a < e && cs@[a as int] == '/' {
            Seq::<char>::empty()
        } else {
            seq!['/']
        }) + cs@.subrange(a as int, i as int));
    }
    proof {
        let t = trimmed(cs@);
        if a < e {
            assert(t == cs@.subrange(a as int, e as int));
            assert(i == e);
            if cs@[a as int] == '/' {
                assert(out@ =~= t);
            } else {
                assert(out@ =~= seq!['/'] + t);
            }
        } else {
            assert(t.len() == 0);
            assert(out@ =~= seq!['/'] + t);
        }
    }
    if out[out.len() - 1] != '/' {
        out.push('/');
    }
    string_of_range(&out, 0, out.len())
}

/// Lines joined by line breaks.
pub open spec fn join_lines(ls: Seq<Seq<char>>) -> Seq<char>
    decreases ls.len(),
{
    if ls.len() == 0 {
        Seq::empty()
    } else if ls.len() == 1 {
        ls[0]
    } else {
        join_lines(ls.drop_last()) + seq!['\n'] + ls.last()
    }
}

/// A settings line with the port or web root replaced; any other line as it was.
pub open spec fn env_line(line: Seq<char>, port_line: Seq<char>, root_line: Seq<char>) -> Seq<char> {
    if starts_with(line, "SERVER_PORT="@) {
        port_line
    } else if starts_with(line, "WEB_ROOT="@) {
        root_line
    } else {
        line
    }
}

/// Some line starts with `p`.
pub open spec fn some_line_starts(ls: Seq<Seq<char>>, p: Seq<char>) -> bool {
    exists|i: int| 0 <= i < ls.len() && starts_with(#[trigger] ls[i], p)
}

/// The settings file with its port and web root lines replaced, and added at the end
/// when missing (port first).
pub open spec fn env_text(content: Seq<char>, port: nat, web_root: Seq<char>) -> Seq<char> {
    let port_line = "SERVER_PORT="@ + decimal_text(port);
    let root_line = "WEB_ROOT="@ + clean_root(web_root);
    let ls = text_lines(content, 0);
    let kept = ls.map_values(|l: Seq<char>| env_line(l, port_line, root_line));
    let with_port = if some_line_starts(ls, "SERVER_PORT="@) {
        kept
    } else {
        kept.push(port_line)
    };
    let all = if some_line_starts(ls, "WEB_ROOT="@) {
        with_port
    } else {
        with_port.push(root_line)
    };
    join_lines(all)
}

fn starts_with_exec(s: &Vec<char>, p: &Vec<char>) -> (r: bool)
    ensures
        r == starts_with(s@, p@),
{
    if p.len() > s.len() {
        return false;
    }
    let mut i: usize = 0;
    while i < p.len()
        invariant
            p@.len() <= s@.len(),
            i <= p@.len(),
            forall|j: int| 0 <= j < i ==> s@[j] == p@[j],
        decreases p@.len() - i,
    {
        if s[i] != p[i] {
            assert(s@.subrange(0, p@.len() as int)[i as int] != p@[i as int]);
            return false;
        }
        i += 1;
    }
    assert(s@.subrange(0, p@.len() as int) =~= p@);
    true
}

fn append_chars(out: &mut Vec<char>, src: &Vec<char>)
    ensures
        final(out)@ == old(out)@ + src@,
{
    let mut i: usize = 0;
    while i < src.len()
        invariant
            i <= src@.len(),
            out@ == old(out)@ + src@.subrange(0, i as int),
        decreases src@.len() - i,
    {
        out.push(src[i]);
        i += 1;
        assert(out@ =~= old(out)@ + src@.subrange(0, i as int));
    }
    assert(src@.subrange(0, i as int) =~= src@);
}

/// Appends a line to text that joins `ls`.
fn push_line(out: &mut Vec<char>, line: &Vec<char>, ls: Ghost<Seq<Seq<char>>>, first: bool)
    requires
        old(out)@ == join_lines(ls@),
        first == (ls@.len() == 0),
    ensures
        final(out)@ == join_lines(ls@.push(line@)),
{
    assert(ls@.push(line@).drop_last() =~= ls@);
    if !first {
        out.push('\n');
    }
    append_chars(out, line);
    if first {
        assert(old(out)@ =~= Seq::<char>::empty());
    }
}

fn text_vec(s: &str) -> (r: Vec<char>)
    ensures
        r@ == s@,
{
    chars_of(s)
}

/// The settings file with its port and web root lines replaced, and added at the end
/// when missing.
pub fn update_env_content(content: &str, port: u16, web_root: &str) -> (r: String)
    ensures
        r@ == env_text(content@, port as nat, web_root@),
{
    let t = chars_of(content);
    let n = t.len();
    let port_prefix = text_vec("SERVER_PORT=");
    let root_prefix = text_vec("WEB_ROOT=");
    let mut port_line = text_vec("SERVER_PORT=");
    append_chars(&mut port_line, &text_vec(crate::text::decimal_string(port as i32).as_str()));
    let mut root_line = text_vec("WEB_ROOT=");
    append_chars(&mut root_line, &text_vec(clean_web_root(web_root).as_str()));
    let ghost pl = port_line@;
    let ghost rl = root_line@;
    proof {
        assert(crate::text::signed_text(port as int) == decimal_text(port as nat));
    }
    let ghost all_lines = text_lines(t@, 0);
    let ghost mut done: Seq<Seq<char>> = Seq::empty();
    let mut out: Vec<char> = Vec::new();
    let mut has_port = false;
    let mut has_root = false;
    let mut started = false;
    let mut pos: usize = 0;
    while pos < n
        invariant
            n == t@.len(),
            t@ == content@,
            port_prefix@ == "SERVER_PORT="@,
            root_prefix@ == "WEB_ROOT="@,
            port_line@ == pl,
            root_line@ == rl,
            pos <= n,
            all_lines == done + text_lines(t@, pos as int),
            out@ == join_lines(done.map_values(|l: Seq<char>| env_line(l, pl, rl))),
            has_port == some_line_starts(done, "SERVER_PORT="@),
            has_root == some_line_starts(done, "WEB_ROOT="@),
            started == (done.len() > 0),
        decreases n - pos,
    {
        let mut e = pos;
        while e < n && t[e] != '\n'
            invariant
                pos <= e <= n,
                n == t@.len(),
                next_newline(t@, pos as int) == next_newline(t@, e as int),
            decreases n - e,
        {
            e += 1;
        }
        let mut end = e;
        if end > pos && t[end - 1] == '\r' {
            end = end - 1;
        }
        let mut line: Vec<char> = Vec::new();
        let mut k = pos;
        while k < end
            invariant
                pos <= k <= end <= n,
                n == t@.len(),
                line@ == t@.subrange(pos as int, k as int),
            decreases end - k,
        {
            line.push(t[k]);
            k += 1;
            assert(line@ =~= t@.subrange(pos as int, k as int));
        }
        proof {
            assert(next_newline(t@, e as int) == e as int);
            let full = t@.subrange(pos as int, e as int);
            if end < e {
                assert(line@ =~= full.drop_last());
            } else {
                assert(line@ =~= full);
            }
            assert(line@ == line_at(t@, pos as int));
        }
        let is_port = starts_with_exec(&line, &port_prefix);
        let is_root = starts_with_exec(&line, &root_prefix);
        let ghost mapped = done.map_values(|l: Seq<char>| env_line(l, pl, rl));
        if is_port {
            push_line(&mut out, &port_line, Ghost(mapped), !started);
        } else if is_root {
            push_line(&mut out, &root_line, Ghost(mapped), !started);
        } else {
            push_line(&mut out, &line, Ghost(mapped), !started);
        }
        started = true;
        let ghost had_port = has_port;
        let ghost had_root = has_root;
        has_port = has_port || is_port;
        has_root = has_root || is_root;
        proof {
            let d2 = done.push(line@);
            assert(d2.map_values(|l: Seq<char>| env_line(l, pl, rl)) =~= mapped.push(
                env_line(line@, pl, rl),
            ));
            assert(d2[done.len() as int] == line@);
            if is_port {
                assert(starts_with(d2[done.len() as int], "SERVER_PORT="@));
            }
            if is_root {
                assert(starts_with(d2[done.len() as int], "WEB_ROOT="@));
            }
            if !is_port && had_port {
                let i = choose|i: int| 0 <= i < done.len() && starts_with(#[trigger] done[i], "SERVER_PORT="@);
                assert(d2[i] == done[i]);
            }
            if !is_root && had_root {
                let i = choose|i: int| 0 <= i < done.len() && starts_with(#[trigger] done[i], "WEB_ROOT="@);
                assert(d2[i] == done[i]);
            }
            if !had_port && !is_port {
                assert forall|i: int| 0 <= i < d2.len() implies !starts_with(#[trigger] d2[i], "SERVER_PORT="@) by {
                    if i < done.len() {
                        assert(d2[i] == done[i]);
                    }
                }
            }
            if !had_root && !is_root {
                assert forall|i: int| 0 <= i < d2.len() implies !starts_with(#[trigger] d2[i], "WEB_ROOT="@) by {
                    if i < done.len() {
                        assert(d2[i] == done[i]);
                    }
                }
            }
            let next = if e >= n {
                n as int
            } else {
                e + 1
            };
            assert(text_lines(t@, pos as int) == seq![line@] + text_lines(t@, next));
            assert(done + text_lines(t@, pos as int) =~= d2 + text_lines(t@, next));
            done = d2;
        }
        if e >= n {
            pos = n;
        } else {
            pos = e + 1;
        }
    }
    assert(done + text_lines(t@, pos as int) =~= done);
    let ghost kept = done.map_values(|l: Seq<char>| env_line(l, pl, rl));
    if !has_port {
        push_line(&mut out, &port_line, Ghost(kept), !started);
        started = true;
    }
    let ghost with_port = if has_port {
        kept
    } else {
        kept.push(pl)
    };
    if !has_root {
        push_line(&mut out, &root_line, Ghost(with_port), !started);
    }
    string_of_range(&out, 0, out.len())
}

/// The host part of a domain: everything before its first colon.
pub open spec fn host_of(domain: Seq<char>) -> Seq<char> {
    match crate::text::find_from(domain, seq![':'], 0) {
        Some(i) => domain.subrange(0, i),
        None => domain,
    }
}

/// The address probed for a reality target: HTTPS on the domain's host.
pub fn probe_url(domain: &str) -> (r: String)
    ensures
        r@ == "https://"@ + host_of(domain@),
{
    let cs = chars_of(domain);
    let colon = vec![':'];
    assert(colon@ == seq![':']);
    let end = match crate::text::find(&cs, &colon, 0) {
        Some(i) => i,
        None => cs.len(),
    };
    proof {
        crate::text::lemma_find_from_bounds(cs@, seq![':'], 0);
        if end == cs@.len() {
            assert(cs@.subrange(0, end as int) =~= cs@);
        }
    }
    let host = string_of_range(&cs, 0, end);
    String::from_str("https://").concat(host.as_str())
}

/// What a reality target check reports: valid when the TLS 1.3 probe succeeded; else
/// unsupported when a probe without version limits succeeded; else unreachable, with
/// the reason the first probe failed.
pub open spec fn reality_verdict_ok(
    r: RealityCheckResponse,
    tls13_ok: bool,
    fallback_ok: bool,
    timed_out: bool,
    latency: u128,
) -> bool {
    &&& r.latency == latency
    &&& r.is_valid == tls13_ok
    &&& r.has_tls13 == tls13_ok
    &&& if tls13_ok {
        r.key_exchange@ == "X25519"@ && r.message@ == "Target supports TLS 1.3 and X25519 key exchange"@
    } else if fallback_ok {
        r.key_exchange@ == "Unsupported"@ && r.message@
            == "Target station does not support TLS 1.3 (only supports 1.2 or lower)"@
    } else {
        r.key_exchange@ == "None"@ && r.message@ == "VPS failed to connect to target station: "@
            + (if timed_out {
            "Request timeout"@
        } else {
            "Connection reset"@
        }) + " (please check network quality)"@
    }
}

/// The report on a reality target from the outcomes of its probes.
pub fn reality_check_verdict(tls13_ok: bool, fallback_ok: bool, timed_out: bool, latency: u128) -> (r:
    RealityCheckResponse)
    ensures
        reality_verdict_ok(r, tls13_ok, fallback_ok, timed_out, latency),
{
    if tls13_ok {
        RealityCheckResponse {
            is_valid: true,
            has_tls13: true,
            key_exchange: String::from_str("X25519"),
            latency,
            message: String::from_str("Target supports TLS 1.3 and X25519 key exchange"),
        }
    } else if fallback_ok {
        RealityCheckResponse {
            is_valid: false,
            has_tls13: false,
            key_exchange: String::from_str("Unsupported"),
            latency,
            message: String::from_str(
                "Target station does not support TLS 1.3 (only supports 1.2 or lower)",
            ),
        }
    } else {
        let reason = if timed_out {
            "Request timeout"
        } else {
            "Connection reset"
        };
        let message = String::from_str("VPS failed to connect to target station: ").concat(
            reason,
        ).concat(" (please check network quality)");
        RealityCheckResponse {
            is_valid: false,
            has_tls13: false,
            key_exchange: String::from_str("None"),
            latency,
            message,
        }
    }
}

/// The value of a signed 64-bit decimal: an optional sign, then at least one digit and
/// nothing else, with a value that fits.
pub open spec fn decimal_i64(s: Seq<char>) -> Option<i64> {
    if s.len() > 0 && s[0] == '-' {
        let d = s.drop_first();
        if d.len() > 0 && (forall|i: int| 0 <= i < d.len() ==> crate::text::is_digit(#[trigger] d[i]))
            && crate::text::digits_value(d) <= 0x8000_0000_0000_0000 {
            Some((0 - crate::text::digits_value(d)) as i64)
        } else {
            None
        }
    } else {
        match crate::text::decimal_u64(s) {
            Some(v) if v <= i64::MAX => Some(v as i64),
            _ => None,
        }
    }
}

/// The value of a signed 64-bit decimal, if `s` is one.
pub fn parse_i64(s: &str) -> (r: Option<i64>)
    ensures
        r == decimal_i64(s@),
{
    let cs = chars_of(s);
    assert(cs@.subrange(0, cs@.len() as int) =~= cs@);
    if cs.len() > 0 && cs[0] == '-' {
        let ghost d = cs@.drop_first();
        assert(cs@.subrange(1, cs@.len() as int) =~= d);
        if cs.len() > 1 && cs[1] == '+' {
            assert(!crate::text::is_digit(d[0]));
            return None;
        }
        proof {
            assert(crate::text::unsigned_digits(d) == d);
        }
        match crate::text::parse_u64_digits(&cs, 1) {
            Some(v) => {
                if v <= 0x8000_0000_0000_0000u64 {
                    let r: i128 = 0i128 - v as i128;
                    Some(r as i64)
                } else {
                    None
                }
            },
            None => None,
        }
    } else {
        match crate::text::parse_u64_digits(&cs, 0) {
            Some(v) => {
                if v <= i64::MAX as u64 {
                    Some(v as i64)
                } else {
                    None
                }
            },
            None => None,
        }
    }
}

/// The user named by a token's subject.
pub fn token_user_id(sub: &str) -> (r: Result<i64, ApiError>)
    ensures
        decimal_i64(sub@) matches Some(v) ==> r == Ok::<i64, ApiError>(v),
        decimal_i64(sub@) is None ==> is_unauthorized(r, "Invalid user ID in token"@),
{
    match parse_i64(sub) {
        Some(v) => Ok(v),
        None => Err(ApiError::Unauthorized(String::from_str("Invalid user ID in token"))),
    }
}

/// Whether a token is still valid for its user: the user exists (`stored_version` is
/// the user's password version) and the password has not changed since it was issued.
pub fn check_token_version(token_version: i64, stored_version: Option<i64>) -> (r: Result<(), ApiError>)
    ensures
        stored_version is None ==> is_unauthorized(r, "User not found"@),
        stored_version == Some(token_version) ==> r is Ok,
        stored_version matches Some(v) && v != token_version ==> is_unauthorized(
            r,
            "Token has been invalidated due to password change"@,
        ),
{
    match stored_version {
        None => Err(ApiError::Unauthorized(String::from_str("User not found"))),
        Some(v) => {
            if v == token_version {
                Ok(())
            } else {
                Err(
                    ApiError::Unauthorized(
                        String::from_str("Token has been invalidated due to password change"),
                    ),
                )
            }
        },
    }
}

} // verus!
