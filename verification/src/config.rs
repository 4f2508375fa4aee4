//! Gateway configuration: the bind host and listen port, read at startup
//! from the text of a configuration file.
//!
//! The file is a sectioned key-value text. Lines are separated by line
//! feeds; surrounding spaces, tabs and carriage returns are trimmed; empty
//! lines and lines starting with `#` are skipped. A line `[name]` opens a
//! section, a line `key = value` sets an entry of the current section.
//! The configuration is read from the `server` section: `host`, a quoted
//! string, and `port`, an unsigned decimal that must fit a 16-bit port
//! number. Later entries override earlier ones; entries of other sections
//! and unknown keys are ignored. Reading the file itself is I/O and happens
//! with the caller; a missing file is the caller's error.

use vstd::prelude::*;
use crate::codec::{decode_lossy, lossy_utf8};

verus! {

/// The server block of the configuration: the address the gateway binds and
/// the port it listens on.
#[derive(Debug)]
pub struct ServerConfig {
    pub host: String,
    pub port: u16,
}

/// The whole gateway configuration.
#[derive(Debug)]
pub struct Config {
    pub server: ServerConfig,
}

/// Why a configuration text was rejected.
#[derive(Debug, PartialEq, Eq)]
pub enum ConfigError {
    /// A line is neither empty, a comment, a section header nor a
    /// `key = value` pair, or a required value has the wrong shape.
    Malformed,
    /// The server section has no `host` entry.
    MissingHost,
    /// The server section has no `port` entry.
    MissingPort,
    /// The `port` value does not fit a 16-bit port number.
    PortOutOfRange,
}

/// A space, tab or carriage return: the bytes trimmed around tokens.
pub open spec fn is_ws(b: u8) -> bool {
    b == 32 || b == 9 || b == 13
}

/// Index of the first occurrence of `b` in `s`, or `s.len()` when absent.
pub open spec fn first_byte(s: Seq<u8>, b: u8) -> int
    decreases s.len(),
{
    if s.len() == 0 {
        0
    } else if s[0] == b {
        0
    } else {
        1 + first_byte(s.drop_first(), b)
    }
}

/// `first_byte` is a well-defined index: in bounds, pointing at `b` when one
/// occurs, with no earlier occurrence.
pub proof fn lemma_first_byte_bound(s: Seq<u8>, b: u8)
    ensures
        0 <= first_byte(s, b) <= s.len(),
        first_byte(s, b) < s.len() ==> s[first_byte(s, b)] == b,
        forall|j: int| 0 <= j < first_byte(s, b) ==> s[j] != b,
    decreases s.len(),
{
    if s.len() == 0 {
    } else if s[0] == b {
    } else {
        lemma_first_byte_bound(s.drop_first(), b);
        assert forall|j: int| 0 <= j < first_byte(s, b) implies s[j] != b by {
            if j > 0 {
                assert(s.drop_first()[j - 1] == s[j]);
            }
        }
        if first_byte(s, b) < s.len() {
            assert(s.drop_first()[first_byte(s.drop_first(), b)] == s[first_byte(s, b)]);
        }
    }
}

/// A scan that saw no `b` before `k`, and `b` (or the end) at `k`, found
/// exactly `first_byte`.
pub proof fn lemma_first_byte_scan(s: Seq<u8>, b: u8, k: int)
    requires
        0 <= k <= s.len(),
        forall|j: int| 0 <= j < k ==> s[j] != b,
        k < s.len() ==> s[k] == b,
    ensures
        first_byte(s, b) == k,
    decreases s.len(),
{
    if s.len() == 0 {
    } else if s[0] == b {
        assert(k == 0);
    } else {
        assert forall|j: int| 0 <= j < k - 1 implies s.drop_first()[j] != b by {
            assert(s.drop_first()[j] == s[j + 1]);
        }
        if k - 1 < s.drop_first().len() {
            assert(s.drop_first()[k - 1] == s[k]);
        }
        lemma_first_byte_scan(s.drop_first(), b, k - 1);
    }
}

/// `s` with leading whitespace removed.
pub open spec fn trim_left(s: Seq<u8>) -> Seq<u8>
    decreases s.len(),
{
    if s.len() == 0 {
        s
    } else if is_ws(s[0]) {
        trim_left(s.drop_first())
    } else {
        s
    }
}

/// `s` with trailing whitespace removed.
pub open spec fn trim_right(s: Seq<u8>) -> Seq<u8>
    decreases s.len(),
{
    if s.len() == 0 {
        s
    } else if is_ws(s.last()) {
        trim_right(s.drop_last())
    } else {
        s
    }
}

/// `s` with surrounding whitespace removed.
pub open spec fn trimmed(s: Seq<u8>) -> Seq<u8> {
    trim_right(trim_left(s))
}

/// A scan that saw only whitespace before `a`, and none (or the end) at `a`,
/// found where the leading trim ends.
pub proof fn lemma_trim_left_scan(s: Seq<u8>, a: int)
    requires
        0 <= a <= s.len(),
        forall|j: int| 0 <= j < a ==> is_ws(s[j]),
        a < s.len() ==> !is_ws(s[a]),
    ensures
        trim_left(s) == s.skip(a),
    decreases s.len(),
{
    if s.len() == 0 {
        assert(s.skip(0) =~= s);
    } else if is_ws(s[0]) {
        assert forall|j: int| 0 <= j < a - 1 implies is_ws(s.drop_first()[j]) by {
            assert(s.drop_first()[j] == s[j + 1]);
        }
        if a - 1 < s.drop_first().len() {
            assert(s.drop_first()[a - 1] == s[a]);
        }
        lemma_trim_left_scan(s.drop_first(), a - 1);
        assert(s.drop_first().skip(a - 1) =~= s.skip(a));
    } else {
        assert(a == 0);
        assert(s.skip(0) =~= s);
    }
}

/// A scan that saw only whitespace from `b` on, and none (or the start) just
/// before `b`, found where the trailing trim begins.
pub proof fn lemma_trim_right_scan(s: Seq<u8>, b: int)
    requires
        0 <= b <= s.len(),
        forall|j: int| b <= j < s.len() ==> is_ws(s[j]),
        b > 0 ==> !is_ws(s[b - 1]),
    ensures
        trim_right(s) == s.take(b),
    decreases s.len(),
{
    if s.len() == 0 {
        assert(s.take(0) =~= s);
    } else if is_ws(s.last()) {
        assert(b < s.len());
        assert forall|j: int| b <= j < s.drop_last().len() implies is_ws(s.drop_last()[j]) by {
            assert(s.drop_last()[j] == s[j]);
        }
        lemma_trim_right_scan(s.drop_last(), b);
        assert(s.drop_last().take(b) =~= s.take(b));
    } else {
        assert(b == s.len());
        assert(s.take(s.len() as int) =~= s);
    }
}

/// The bytes of the section name that configuration entries are read from.
pub open spec fn server_name() -> Seq<u8> {
    seq![115u8, 101u8, 114u8, 118u8, 101u8, 114u8]
}

/// The bytes of the `host` key.
pub open spec fn host_key() -> Seq<u8> {
    seq![104u8, 111u8, 115u8, 116u8]
}

/// The bytes of the `port` key.
pub open spec fn port_key() -> Seq<u8> {
    seq![112u8, 111u8, 114u8, 116u8]
}

/// Whether every byte is a decimal digit.
pub open spec fn all_digits(s: Seq<u8>) -> bool {
    forall|i: int| 0 <= i < s.len() ==> 48 <= #[trigger] s[i] <= 57
}

/// The number that a digit sequence denotes.
pub open spec fn digits_val(s: Seq<u8>) -> int
    decreases s.len(),
{
    if s.len() == 0 {
        0
    } else {
        digits_val(s.drop_last()) * 10 + (s.last() - 48)
    }
}

/// A digit sequence denotes a non-negative number.
pub proof fn lemma_digits_val_nonneg(s: Seq<u8>)
    requires
        all_digits(s),
    ensures
        digits_val(s) >= 0,
    decreases s.len(),
{
    if s.len() > 0 {
        assert forall|i: int| 0 <= i < s.drop_last().len() implies 48 <= #[trigger] s.drop_last()[i]
            <= 57 by {
            assert(s.drop_last()[i] == s[i]);
        }
        lemma_digits_val_nonneg(s.drop_last());
    }
}

/// Reading more digits never shrinks the denoted number.
pub proof fn lemma_digits_val_prefix(s: Seq<u8>, k: int)
    requires
        all_digits(s),
        0 <= k <= s.len(),
    ensures
        digits_val(s.take(k)) <= digits_val(s),
    decreases s.len(),
{
    if k == s.len() {
        assert(s.take(k) =~= s);
    } else {
        assert forall|i: int| 0 <= i < s.drop_last().len() implies 48 <= #[trigger] s.drop_last()[i]
            <= 57 by {
            assert(s.drop_last()[i] == s[i]);
        }
        lemma_digits_val_prefix(s.drop_last(), k);
        assert(s.drop_last().take(k) =~= s.take(k));
        lemma_digits_val_nonneg(s.drop_last());
    }
}

/// The port number a value denotes: decimal digits only, fitting 16 bits.
pub open spec fn port_of(val: Seq<u8>) -> Result<u16, ConfigError> {
    if val.len() == 0 || !all_digits(val) {
        Err(ConfigError::Malformed)
    } else if digits_val(val) > 65535 {
        Err(ConfigError::PortOutOfRange)
    } else {
        Ok(digits_val(val) as u16)
    }
}

/// Abstract parser state: whether the cursor stands in the server section,
/// and the entries seen so far.
pub struct ParseState {
    pub in_server: bool,
    pub host: Option<Seq<u8>>,
    pub port: Option<u16>,
}

/// The state before any line is read.
pub open spec fn init_state() -> ParseState {
    ParseState { in_server: false, host: None, port: None }
}

/// How one line changes the parser state: skip blanks and comments, switch
/// sections on a header, record a `host` or `port` entry of the server
/// section (later entries override earlier ones), ignore everything else;
/// anything malformed rejects the text.
pub open spec fn step_line(st: ParseState, line: Seq<u8>) -> Result<ParseState, ConfigError> {
    let t = trimmed(line);
    if t.len() == 0 {
        Ok(st)
    } else if t[0] == 35 {
        Ok(st)
    } else if t[0] == 91 {
        if t.len() >= 2 && t.last() == 93 {
            Ok(
                ParseState {
                    in_server: trimmed(t.subrange(1, t.len() - 1)) == server_name(),
                    host: st.host,
                    port: st.port,
                },
            )
        } else {
            Err(ConfigError::Malformed)
        }
    } else {
        let e = first_byte(t, 61);
        if e == t.len() {
            Err(ConfigError::Malformed)
        } else {
            let key = trimmed(t.take(e));
            let val = trimmed(t.skip(e + 1));
            if st.in_server && key == host_key() {
                if val.len() >= 2 && val[0] == 34 && val.last() == 34 {
                    Ok(
                        ParseState {
                            in_server: st.in_server,
                            host: Some(val.subrange(1, val.len() - 1)),
                            port: st.port,
                        },
                    )
                } else {
                    Err(ConfigError::Malformed)
                }
            } else if st.in_server && key == port_key() {
                match port_of(val) {
                    Ok(p) => Ok(
                        ParseState { in_server: st.in_server, host: st.host, port: Some(p) },
                    ),
                    Err(err) => Err(err),
                }
            } else {
                Ok(st)
            }
        }
    }
}

/// The parser run over the whole text, line by line; the text after the last
/// line feed counts as a final line.
pub open spec fn parse_lines(s: Seq<u8>, st: ParseState) -> Result<ParseState, ConfigError>
    decreases s.len(),
    via parse_lines_dec
{
    if s.len() == 0 {
        Ok(st)
    } else {
        let n = first_byte(s, 10);
        match step_line(st, s.take(n)) {
            Ok(st2) => parse_lines(
                if n == s.len() {
                    Seq::<u8>::empty()
                } else {
                    s.skip(n + 1)
                },
                st2,
            ),
            Err(e) => Err(e),
        }
    }
}

#[via_fn]
proof fn parse_lines_dec(s: Seq<u8>, st: ParseState) {
    lemma_first_byte_bound(s, 10);
}

/// What the recorded entries yield: the host bytes and the port, or the
/// first missing required entry.
pub open spec fn finalize(st: ParseState) -> Result<(Seq<u8>, u16), ConfigError> {
    match st.host {
        None => Err(ConfigError::MissingHost),
        Some(h) => match st.port {
            None => Err(ConfigError::MissingPort),
            Some(p) => Ok((h, p)),
        },
    }
}

/// The meaning of a configuration text: the host bytes and port of its
/// server section, or why it is rejected.
pub open spec fn parse_config(s: Seq<u8>) -> Result<(Seq<u8>, u16), ConfigError> {
    match parse_lines(s, init_state()) {
        Ok(st) => finalize(st),
        Err(e) => Err(e),
    }
}

struct Parser {
    in_server: bool,
    host: Option<Vec<u8>>,
    port: Option<u16>,
}

impl View for Parser {
    type V = ParseState;

    closed spec fn view(&self) -> ParseState {
        ParseState {
            in_server: self.in_server,
            host: match self.host {
                None => None,
                Some(h) => Some(h@),
            },
            port: self.port,
        }
    }
}

fn is_ws_byte(b: u8) -> (r: bool)
    ensures
        r == is_ws(b),
{
    b == 32 || b == 9 || b == 13
}

fn find_byte(s: &[u8], from: usize, b: u8) -> (j: usize)
    requires
        from <= s@.len(),
    ensures
        from <= j <= s@.len(),
        j - from == first_byte(s@.skip(from as int), b),
        j < s@.len() ==> s@[j as int] == b,
        forall|m: int| from <= m < j ==> s@[m] != b,
{
    let n: usize = s.len();
    let mut j: usize = from;
    while j < n && s[j] != b
        invariant
            from <= j <= n,
            n == s@.len(),
            forall|m: int| from <= m < j ==> s@[m] != b,
        decreases n - j,
    {
        j = j + 1;
    }
    proof {
        assert forall|m: int| 0 <= m < j - from implies s@.skip(from as int)[m] != b by {
            assert(s@.skip(from as int)[m] == s@[m + from]);
        }
        if j < n {
            assert(s@.skip(from as int)[j - from] == s@[j as int]);
        }
        lemma_first_byte_scan(s@.skip(from as int), b, j - from);
    }
    j
}

fn copy_range(s: &[u8], a: usize, b: usize) -> (r: Vec<u8>)
    requires
        a <= b <= s@.len(),
    ensures
        r@ == s@.subrange(a as int, b as int),
{
    let mut r: Vec<u8> = Vec::new();
    proof {
        assert(r@ =~= s@.subrange(a as int, a as int));
    }
    let mut i: usize = a;
    while i < b
        invariant
            a <= i <= b <= s@.len(),
            r@ == s@.subrange(a as int, i as int),
        decreases b - i,
    {
        r.push(s[i]);
        proof {
            assert(r@ =~= s@.subrange(a as int, i + 1 as int));
        }
        i = i + 1;
    }
    r
}

fn trim_bytes(s: &[u8]) -> (r: Vec<u8>)
    ensures
        r@ == trimmed(s@),
{
    let n: usize = s.len();
    let mut a: usize = 0;
    while a < n && is_ws_byte(s[a])
        invariant
            a <= n,
            n == s@.len(),
            forall|j: int| 0 <= j < a ==> is_ws(s@[j]),
        decreases n - a,
    {
        a = a + 1;
    }
    let mut b: usize = n;
    while b > a && is_ws_byte(s[b - 1])
        invariant
            a <= b <= n,
            n == s@.len(),
            forall|j: int| b <= j < n ==> is_ws(s@[j]),
        decreases b,
    {
        b = b - 1;
    }
    proof {
        lemma_trim_left_scan(s@, a as int);
        assert forall|j: int| (b - a) <= j < s@.skip(a as int).len() implies is_ws(
            s@.skip(a as int)[j],
        ) by {
            assert(s@.skip(a as int)[j] == s@[j + a]);
        }
        if b - a > 0 {
            assert(s@.skip(a as int)[b - a - 1] == s@[b - 1]);
        }
        lemma_trim_right_scan(s@.skip(a as int), b - a);
        assert(s@.skip(a as int).take(b - a) =~= s@.subrange(a as int, b as int));
    }
    copy_range(s, a, b)
}

fn is_server_name(k: &[u8]) -> (r: bool)
    ensures
        r == (k@ == server_name()),
{
    if k.len() == 6 && k[0] == 115 && k[1] == 101 && k[2] == 114 && k[3] == 118 && k[4] == 101
        && k[5] == 114 {
        proof {
            assert(k@ =~= server_name());
        }
        true
    } else {
        proof {
            if k@ == server_name() {
                assert(k@.len() == 6);
                assert(k@[0] == 115 && k@[1] == 101 && k@[2] == 114 && k@[3] == 118 && k@[4] == 101
                    && k@[5] == 114);
            }
        }
        false
    }
}

fn is_host_key(k: &[u8]) -> (r: bool)
    ensures
        r == (k@ == host_key()),
{
    if k.len() == 4 && k[0] == 104 && k[1] == 111 && k[2] == 115 && k[3] == 116 {
        proof {
            assert(k@ =~= host_key());
        }
        true
    } else {
        proof {
            if k@ == host_key() {
                assert(k@.len() == 4);
                assert(k@[0] == 104 && k@[1] == 111 && k@[2] == 115 && k@[3] == 116);
            }
        }
        false
    }
}

fn is_port_key(k: &[u8]) -> (r: bool)
    ensures
        r == (k@ == port_key()),
{
    if k.len() == 4 && k[0] == 112 && k[1] == 111 && k[2] == 114 && k[3] == 116 {
        proof {
            assert(k@ =~= port_key());
        }
        true
    } else {
        proof {
            if k@ == port_key() {
                assert(k@.len() == 4);
                assert(k@[0] == 112 && k@[1] == 111 && k@[2] == 114 && k@[3] == 116);
            }
        }
        false
    }
}

fn parse_port(val: &[u8]) -> (r: Result<u16, ConfigError>)
    ensures
        r == port_of(val@),
{
    let n: usize = val.len();
    if n == 0 {
        return Err(ConfigError::Malformed);
    }
    let mut i: usize = 0;
    while i < n
        invariant
            i <= n,
            n == val@.len(),
            forall|j: int| 0 <= j < i ==> 48 <= #[trigger] val@[j] <= 57,
        decreases n - i,
    {
        let c: u8 = val[i];
        if c < 48 || c > 57 {
            return Err(ConfigError::Malformed);
        }
        i = i + 1;
    }
    let mut acc: u32 = 0;
    let mut k: usize = 0;
    while k < n
        invariant
            k <= n,
            n == val@.len(),
            all_digits(val@),
            acc <= 65535,
            acc == digits_val(val@.take(k as int)),
        decreases n - k,
    {
        let d: u8 = val[k];
        let next: u32 = acc * 10 + (d as u32 - 48);
        proof {
            assert(val@.take(k + 1 as int).drop_last() =~= val@.take(k as int));
            assert(val@.take(k + 1 as int).last() == val@[k as int]);
        }
        if next > 65535 {
            proof {
                lemma_digits_val_prefix(val@, k + 1 as int);
            }
            return Err(ConfigError::PortOutOfRange);
        }
        acc = next;
        k = k + 1;
    }
    proof {
        assert(val@.take(n as int) =~= val@);
    }
    Ok(acc as u16)
}

fn process_line(line: &[u8], st: Parser) -> (r: Result<Parser, ConfigError>)
    ensures
        r matches Ok(st2) ==> (step_line(st@, line@) matches Ok(a) && a == st2@),
        r matches Err(e) ==> (step_line(st@, line@) matches Err(f) && f == e),
{
    let t = trim_bytes(line);
    if t.len() == 0 {
        return Ok(st);
    }
    let c0: u8 = t[0];
    if c0 == 35 {
        return Ok(st);
    }
    if c0 == 91 {
        if t.len() >= 2 && t[t.len() - 1] == 93 {
            let interior = copy_range(t.as_slice(), 1, t.len() - 1);
            let name = trim_bytes(interior.as_slice());
            let ins = is_server_name(name.as_slice());
            Ok(Parser { in_server: ins, host: st.host, port: st.port })
        } else {
            Err(ConfigError::Malformed)
        }
    } else {
        let e: usize = find_byte(t.as_slice(), 0, 61);
        proof {
            assert(t@.skip(0) =~= t@);
        }
        if e == t.len() {
            return Err(ConfigError::Malformed);
        }
        let key = trim_bytes(copy_range(t.as_slice(), 0, e).as_slice());
        let val = trim_bytes(copy_range(t.as_slice(), e + 1, t.len()).as_slice());
        proof {
            assert(t@.subrange(0, e as int) =~= t@.take(e as int));
            assert(t@.subrange(e + 1 as int, t@.len() as int) =~= t@.skip(e + 1 as int));
        }
        if st.in_server && is_host_key(key.as_slice()) {
            if val.len() >= 2 && val[0] == 34 && val[val.len() - 1] == 34 {
                let hb = copy_range(val.as_slice(), 1, val.len() - 1);
                Ok(Parser { in_server: st.in_server, host: Some(hb), port: st.port })
            } else {
                Err(ConfigError::Malformed)
            }
        } else if st.in_server && is_port_key(key.as_slice()) {
            match parse_port(val.as_slice()) {
                Ok(p) => Ok(Parser { in_server: st.in_server, host: st.host, port: Some(p) }),
                Err(er) => Err(er),
            }
        } else {
            Ok(st)
        }
    }
}

/// Parses the gateway configuration from the text of its configuration file,
/// read by the caller. Returns the host and port of the server section, the
/// host decoded best-effort from its quoted bytes, or the first reason the
/// text is rejected: a malformed line, a missing required entry, or a port
/// beyond 16 bits.
pub fn load_config(contents: &[u8]) -> (r: Result<Config, ConfigError>)
    ensures
        r matches Ok(c) ==> (parse_config(contents@) matches Ok(hp) && c.server.host@
            == lossy_utf8(hp.0) && c.server.port == hp.1),
        r matches Err(e) ==> (parse_config(contents@) matches Err(f) && f == e),
{
    let n: usize = contents.len();
    let mut st = Parser { in_server: false, host: None, port: None };
    proof {
        assert(contents@.skip(0) =~= contents@);
    }
    let mut i: usize = 0;
    while i < n
        invariant
            n == contents@.len(),
            i <= n,
            parse_lines(contents@, init_state()) == parse_lines(contents@.skip(i as int), st@),
        decreases n - i,
    {
        let j: usize = find_byte(contents, i, 10);
        let line = copy_range(contents, i, j);
        let ghost st_pre = st@;
        let ghost s1 = contents@.skip(i as int);
        proof {
            assert(s1.take(j - i) =~= contents@.subrange(i as int, j as int));
            assert(first_byte(s1, 10) == j - i);
        }
        match process_line(line.as_slice(), st) {
            Ok(st2) => {
                proof {
                    assert(step_line(st_pre, s1.take(j - i)) matches Ok(a) && a == st2@);
                    if j < n {
                        assert(s1.skip(j - i + 1) =~= contents@.skip(j + 1 as int));
                        assert(parse_lines(s1, st_pre) == parse_lines(
                            contents@.skip(j + 1 as int),
                            st2@,
                        ));
                    } else {
                        assert(contents@.skip(n as int) =~= Seq::<u8>::empty());
                        assert(parse_lines(s1, st_pre) == parse_lines(
                            contents@.skip(n as int),
                            st2@,
                        ));
                    }
                }
                st = st2;
            },
            Err(e) => {
                proof {
                    assert(step_line(st_pre, s1.take(j - i)) matches Err(f) && f == e);
                    assert(parse_lines(s1, st_pre) == Err::<ParseState, ConfigError>(e));
                }
                return Err(e);
            },
        }
        i = if j < n {
            j + 1
        } else {
            n
        };
    }
    match st.host {
        None => Err(ConfigError::MissingHost),
        Some(hb) => {
            match st.port {
                None => Err(ConfigError::MissingPort),
                Some(p) => Ok(
                    Config { server: ServerConfig { host: decode_lossy(hb.as_slice()), port: p } },
                ),
            }
        },
    }
}

} // verus!
