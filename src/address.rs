//! Destination addresses: the SOCKS byte form and the `host:port` text form.

use vstd::prelude::*;
use vstd::utf8::*;

use crate::error::AddrError;

verus! {

/// An IP socket address: the octets of the address and a port.
#[derive(Debug, Clone, Copy, PartialEq, Eq)]
pub enum SocketAddress {
    V4([u8; 4], u16),
    V6([u8; 16], u16),
}

/// Where a proxied connection should go.
#[derive(Debug, Clone, PartialEq, Eq)]
pub enum DestinationAddress {
    Domain(String, u16),
    Ip(SocketAddress),
}

/// The mathematical value of a `DestinationAddress`.
pub enum DestinationView {
    Domain(Seq<char>, u16),
    Ip(SocketAddress),
}

impl View for DestinationAddress {
    type V = DestinationView;

    open spec fn view(&self) -> DestinationView {
        match self {
            DestinationAddress::Domain(name, port) => DestinationView::Domain(name@, *port),
            DestinationAddress::Ip(a) => DestinationView::Ip(*a),
        }
    }
}

/// A port, big-endian.
pub open spec fn port_bytes(p: u16) -> Seq<u8> {
    seq![(p / 256) as u8, (p % 256) as u8]
}

pub open spec fn port_of(hi: u8, lo: u8) -> u16 {
    (hi * 256 + lo) as u16
}

/// The address followed by the port: UTF-8 of a domain, or the octets of an IP.
pub open spec fn address_bytes(d: DestinationView) -> Seq<u8> {
    match d {
        DestinationView::Domain(name, port) => encode_utf8(name) + port_bytes(port),
        DestinationView::Ip(SocketAddress::V4(ip, port)) => ip@ + port_bytes(port),
        DestinationView::Ip(SocketAddress::V6(ip, port)) => ip@ + port_bytes(port),
    }
}

pub open spec fn is_ip(d: DestinationView) -> bool {
    d is Ip
}

/// What `String::from_utf8_lossy` makes of some bytes.
pub uninterp spec fn utf8_lossy(b: Seq<u8>) -> Seq<char>;

/// The text of a domain received as bytes: invalid sequences become U+FFFD.
pub open spec fn lossy_text(b: Seq<u8>) -> Seq<char> {
    if valid_utf8(b) {
        decode_utf8(b)
    } else {
        utf8_lossy(b)
    }
}

/// Relies on `String::from_utf8_lossy`: bytes that are valid UTF-8 decode to the
/// characters they encode; others follow the lossy conversion.
#[verifier::external_body]
fn decode_lossy(b: &[u8]) -> (r: String)
    ensures
        r@ == utf8_lossy(b@),
        valid_utf8(b@) ==> r@ == decode_utf8(b@),
{
    String::from_utf8_lossy(b).into_owned()
}

/// Bytes that `from_bytes` accepts: at least the port, and for an IP six or eighteen.
pub open spec fn decodable(b: Seq<u8>, ip: bool) -> bool {
    &&& b.len() >= 2
    &&& ip ==> (b.len() == 6 || b.len() == 18)
}

/// `d` is what `b` (address then port) stands for.
pub open spec fn decoded_from(b: Seq<u8>, ip: bool, d: DestinationView) -> bool {
    &&& decodable(b, ip)
    &&& match d {
        DestinationView::Domain(name, port) => {
            &&& !ip
            &&& name == lossy_text(b.subrange(0, b.len() - 2))
            &&& port == port_of(b[b.len() - 2], b[b.len() - 1])
        },
        DestinationView::Ip(SocketAddress::V4(a, port)) => {
            &&& ip
            &&& b.len() == 6
            &&& a@ == b.subrange(0, 4)
            &&& port == port_of(b[4], b[5])
        },
        DestinationView::Ip(SocketAddress::V6(a, port)) => {
            &&& ip
            &&& b.len() == 18
            &&& a@ == b.subrange(0, 16)
            &&& port == port_of(b[16], b[17])
        },
    }
}

/// What `from_bytes` returns on `b`, as a value.
pub open spec fn address_of(b: Seq<u8>, ip: bool) -> Result<DestinationView, AddrError> {
    if decodable(b, ip) {
        Ok(choose|d: DestinationView| decoded_from(b, ip, d))
    } else {
        Err(AddrError::InvalidAddress)
    }
}

/// Some bytes stand for one address at most.
pub proof fn lemma_decoded_unique(b: Seq<u8>, ip: bool, d1: DestinationView, d2: DestinationView)
    requires
        decoded_from(b, ip, d1),
        decoded_from(b, ip, d2),
    ensures
        d1 == d2,
{
    match (d1, d2) {
        (DestinationView::Ip(SocketAddress::V4(a1, _)), DestinationView::Ip(SocketAddress::V4(a2, _))) => {
            assert(a1@ =~= a2@);
            vstd::array::axiom_array_ext_equal(a1, a2);
        },
        (DestinationView::Ip(SocketAddress::V6(a1, _)), DestinationView::Ip(SocketAddress::V6(a2, _))) => {
            assert(a1@ =~= a2@);
            vstd::array::axiom_array_ext_equal(a1, a2);
        },
        _ => {},
    }
}

/// The function form agrees with the relation.
pub proof fn lemma_address_of(b: Seq<u8>, ip: bool, d: DestinationView)
    requires
        decoded_from(b, ip, d),
    ensures
        address_of(b, ip) == Ok::<DestinationView, AddrError>(d),
{
    let c = choose|x: DestinationView| decoded_from(b, ip, x);
    lemma_decoded_unique(b, ip, c, d);
}

/// Appends a slice to a vector.
pub fn extend_bytes(out: &mut Vec<u8>, s: &[u8])
    ensures
        final(out)@ == old(out)@ + s@,
{
    let mut i: usize = 0;
    while i < s.len()
        invariant
            0 <= i <= s.len(),
            out@ == old(out)@ + s@.subrange(0, i as int),
        decreases s.len() - i,
    {
        out.push(s[i]);
        i = i + 1;
        proof {
            assert(s@.subrange(0, i as int) == s@.subrange(0, i - 1) + seq![s@[i - 1]]);
        }
    }
    proof {
        assert(s@.subrange(0, s@.len() as int) == s@);
    }
}

/// Appends a port, big-endian.
pub fn push_port(out: &mut Vec<u8>, port: u16)
    ensures
        final(out)@ == old(out)@ + port_bytes(port),
{
    out.push((port / 256) as u8);
    out.push((port % 256) as u8);
    proof {
        assert(final(out)@ =~= old(out)@ + port_bytes(port));
    }
}

proof fn lemma_port_round_trip(p: u16)
    ensures
        port_of(port_bytes(p)[0], port_bytes(p)[1]) == p,
{
}

/// Copies the first `N` bytes of a slice into an array.
fn octets<const N: usize>(b: &[u8]) -> (r: [u8; N])
    requires
        N <= b@.len(),
    ensures
        r@ == b@.subrange(0, N as int),
{
    let mut a = [0u8; N];
    let mut i: usize = 0;
    while i < N
        invariant
            0 <= i <= N,
            N <= b@.len(),
            a@.len() == N,
            forall|k: int| 0 <= k < i ==> a@[k] == b@[k],
        decreases N - i,
    {
        a[i] = b[i];
        i = i + 1;
    }
    proof {
        assert(a@ =~= b@.subrange(0, N as int));
    }
    a
}

impl DestinationAddress {
    /// A copy of the address.
    pub fn duplicate(&self) -> (r: Self)
        ensures
            r@ == self@,
    {
        match self {
            DestinationAddress::Domain(name, port) => DestinationAddress::Domain(name.clone(), *port),
            DestinationAddress::Ip(a) => DestinationAddress::Ip(*a),
        }
    }

    /// `0.0.0.0:0`, the address written in error replies.
    pub fn default() -> (r: Self)
        ensures
            r@ matches DestinationView::Ip(SocketAddress::V4(a, 0)) && a@ == seq![0u8, 0, 0, 0],
    {
        let r = DestinationAddress::Ip(SocketAddress::V4([0u8; 4], 0));
        proof {
            if let DestinationAddress::Ip(SocketAddress::V4(a, _)) = r {
                assert(a@ =~= seq![0u8, 0, 0, 0]);
            }
        }
        r
    }

    pub fn port(&self) -> (r: u16)
        ensures
            r == match self@ {
                DestinationView::Domain(_, p) => p,
                DestinationView::Ip(SocketAddress::V4(_, p)) => p,
                DestinationView::Ip(SocketAddress::V6(_, p)) => p,
            },
    {
        match self {
            DestinationAddress::Domain(_, p) => *p,
            DestinationAddress::Ip(SocketAddress::V4(_, p)) => *p,
            DestinationAddress::Ip(SocketAddress::V6(_, p)) => *p,
        }
    }

    /// The address followed by the big-endian port.
    pub fn to_bytes(&self) -> (r: Vec<u8>)
        ensures
            r@ == address_bytes(self@),
    {
        let mut out: Vec<u8> = Vec::new();
        match self {
            DestinationAddress::Domain(name, port) => {
                let b = name.as_str().as_bytes();
                extend_bytes(&mut out, b);
                push_port(&mut out, *port);
            },
            DestinationAddress::Ip(SocketAddress::V4(ip, port)) => {
                extend_bytes(&mut out, ip.as_slice());
                push_port(&mut out, *port);
            },
            DestinationAddress::Ip(SocketAddress::V6(ip, port)) => {
                extend_bytes(&mut out, ip.as_slice());
                push_port(&mut out, *port);
            },
        }
        proof {
            assert(out@ =~= address_bytes(self@));
        }
        out
    }

    /// Reads an address followed by a big-endian port. With `ip`, six bytes are
    /// IPv4 and eighteen IPv6; otherwise the address is a domain, taken as lossy
    /// UTF-8 without further checks.
    pub fn from_bytes(buf: &[u8], ip: bool) -> (r: Result<Self, AddrError>)
        ensures
            match r {
                Ok(d) => decoded_from(buf@, ip, d@),
                Err(e) => !decodable(buf@, ip) && e == AddrError::InvalidAddress,
            },
    {
        let n = buf.len();
        if n < 2 {
            return Err(AddrError::InvalidAddress);
        }
        let port: u16 = (buf[n - 2] as u16) * 256 + buf[n - 1] as u16;
        if ip {
            if n == 6 {
                let a: [u8; 4] = octets(buf);
                Ok(DestinationAddress::Ip(SocketAddress::V4(a, port)))
            } else if n == 18 {
                let a: [u8; 16] = octets(buf);
                Ok(DestinationAddress::Ip(SocketAddress::V6(a, port)))
            } else {
                Err(AddrError::InvalidAddress)
            }
        } else {
            let name = decode_lossy(&buf[0..n - 2]);
            Ok(DestinationAddress::Domain(name, port))
        }
    }
}

/// Decoding the byte form of an address gives the address back.
pub proof fn lemma_address_round_trip(d: DestinationView)
    ensures
        decoded_from(address_bytes(d), is_ip(d), d),
{
    let b = address_bytes(d);
    match d {
        DestinationView::Domain(name, port) => {
            encode_utf8_valid_utf8(name);
            encode_utf8_decode_utf8(name);
            assert(b.subrange(0, b.len() - 2) =~= encode_utf8(name));
            lemma_port_round_trip(port);
        },
        DestinationView::Ip(SocketAddress::V4(a, port)) => {
            assert(b.subrange(0, 4) =~= a@);
            lemma_port_round_trip(port);
        },
        DestinationView::Ip(SocketAddress::V6(a, port)) => {
            assert(b.subrange(0, 16) =~= a@);
            lemma_port_round_trip(port);
        },
    }
}

/// What `char::is_alphanumeric` says of a character.
pub uninterp spec fn alphanumeric(c: char) -> bool;

/// What `char::is_numeric` says of a character.
pub uninterp spec fn numeric(c: char) -> bool;

/// Relies on `char::is_alphanumeric`, the Unicode Alphabetic or Numeric property.
#[verifier::external_body]
fn char_is_alphanumeric(c: char) -> (r: bool)
    ensures
        r == alphanumeric(c),
{
    c.is_alphanumeric()
}

/// Relies on `char::is_numeric`, the Unicode Numeric property.
#[verifier::external_body]
fn char_is_numeric(c: char) -> (r: bool)
    ensures
        r == numeric(c),
{
    c.is_numeric()
}

/// Index of the last `c` in `s`, or -1.
pub open spec fn last_index_of(s: Seq<char>, c: char) -> int
    decreases s.len(),
{
    if s.len() == 0 {
        -1
    } else if s.last() == c {
        s.len() - 1
    } else {
        last_index_of(s.drop_last(), c)
    }
}

pub open spec fn is_digit(c: char) -> bool {
    '0' <= c && c <= '9'
}

/// The value of a string of decimal digits.
pub open spec fn digits_value(t: Seq<char>) -> int
    decreases t.len(),
{
    if t.len() == 0 {
        0
    } else {
        digits_value(t.drop_last()) * 10 + (t.last() as int - '0' as int)
    }
}

pub open spec fn all_digits(u: Seq<char>) -> bool {
    forall|k: int| 0 <= k < u.len() ==> is_digit(#[trigger] u[k])
}

/// A number as text without its optional leading `+`.
pub open spec fn unsigned_part(t: Seq<char>) -> Seq<char> {
    if t.len() > 0 && t[0] == '+' {
        t.drop_first()
    } else {
        t
    }
}

/// A port as text: decimal digits, after an optional `+`, of a value that fits in 16 bits.
pub open spec fn port_text(t: Seq<char>) -> Option<u16> {
    let u = unsigned_part(t);
    if u.len() > 0 && all_digits(u) && digits_value(u) <= 65535 {
        Some(digits_value(u) as u16)
    } else {
        None
    }
}

/// `s` split at its last colon into a host and a port.
pub open spec fn host_and_port(s: Seq<char>) -> Option<(Seq<char>, u16)> {
    let k = last_index_of(s, ':');
    if k < 0 {
        None
    } else {
        match port_text(s.subrange(k + 1, s.len() as int)) {
            Some(p) => Some((s.subrange(0, k), p)),
            None => None,
        }
    }
}

/// End of the label that starts at `i`: the next dot, or the end of `d`.
pub open spec fn label_end(d: Seq<char>, i: int) -> int
    decreases d.len() - i,
{
    if i >= d.len() {
        d.len() as int
    } else if d[i] == '.' {
        i
    } else {
        label_end(d, i + 1)
    }
}

/// A label starts at the beginning of `d` and after each dot.
pub open spec fn starts_label(d: Seq<char>, i: int) -> bool {
    i == 0 || (0 < i <= d.len() && d[i - 1] == '.')
}

/// Length in bytes of the UTF-8 form of some text (that of a string in memory fits a `usize`).
pub open spec fn byte_len(t: Seq<char>) -> usize {
    encode_utf8(t).len() as usize
}

/// A DNS label: 1 to 63 bytes of letters, digits and hyphens, with no hyphen at
/// either end, not starting with a digit.
pub open spec fn valid_label(l: Seq<char>) -> bool {
    &&& 0 < l.len()
    &&& byte_len(l) <= 63
    &&& l[0] != '-'
    &&& l[l.len() - 1] != '-'
    &&& !numeric(l[0])
    &&& forall|k: int| 0 <= k < l.len() ==> alphanumeric(#[trigger] l[k]) || l[k] == '-'
}

/// A domain name: at most 253 bytes, made of valid labels separated by dots.
pub open spec fn valid_domain(d: Seq<char>) -> bool {
    &&& byte_len(d) <= 253
    &&& forall|i: int| #[trigger] starts_label(d, i) ==> valid_label(d.subrange(i, label_end(d, i)))
}

/// What the text `s` names, where `ip_form` is the IP socket address that `s`
/// spells, if it spells one.
pub open spec fn parsed_destination(s: Seq<char>, ip_form: Option<SocketAddress>) -> Result<
    DestinationView,
    AddrError,
> {
    match ip_form {
        Some(a) => Ok(DestinationView::Ip(a)),
        None => match host_and_port(s) {
            Some((host, port)) => if valid_domain(host) {
                Ok(DestinationView::Domain(host, port))
            } else {
                Err(AddrError::InvalidAddress)
            },
            None => Err(AddrError::InvalidAddress),
        },
    }
}

proof fn lemma_label_end(d: Seq<char>, i: int)
    requires
        0 <= i <= d.len(),
    ensures
        i <= label_end(d, i) <= d.len(),
        label_end(d, i) == d.len() || d[label_end(d, i)] == '.',
        forall|k: int| i <= k < label_end(d, i) ==> d[k] != '.',
    decreases d.len() - i,
{
    if i < d.len() && d[i] != '.' {
        lemma_label_end(d, i + 1);
    }
}

proof fn lemma_digits_prefix(u: Seq<char>, k: int, m: int)
    requires
        0 <= k <= m <= u.len(),
        forall|j: int| 0 <= j < u.len() ==> is_digit(#[trigger] u[j]),
    ensures
        digits_value(u.subrange(0, k)) <= digits_value(u.subrange(0, m)),
    decreases m - k,
{
    if k < m {
        lemma_digits_prefix(u, k, m - 1);
        assert(u.subrange(0, m).drop_last() =~= u.subrange(0, m - 1));
        assert(digits_value(u.subrange(0, m - 1)) >= 0) by {
            lemma_digits_nonneg(u.subrange(0, m - 1));
        }
    }
}

proof fn lemma_digits_nonneg(u: Seq<char>)
    requires
        forall|j: int| 0 <= j < u.len() ==> is_digit(#[trigger] u[j]),
    ensures
        digits_value(u) >= 0,
    decreases u.len(),
{
    if u.len() > 0 {
        lemma_digits_nonneg(u.drop_last());
    }
}

/// Reads the port from the characters `from..` of `s`.
fn parse_port(s: &str, from: usize) -> (r: Option<u16>)
    requires
        from <= s@.len(),
    ensures
        r == port_text(s@.subrange(from as int, s@.len() as int)),
{
    let n = s.unicode_len();
    let ghost t = s@.subrange(from as int, n as int);
    let mut i = from;
    if i < n && s.get_char(i) == '+' {
        i = i + 1;
    }
    let ghost u = s@.subrange(i as int, n as int);
    proof {
        assert(t == s@.subrange(from as int, s@.len() as int));
        if t.len() > 0 && t[0] == '+' {
            assert(u =~= t.drop_first());
        } else {
            assert(u =~= t);
        }
    }
    if i == n {
        return None;
    }
    let start = i;
    let mut value: u32 = 0;
    while i < n
        invariant
            start <= i <= n,
            n == s@.len(),
            u == s@.subrange(start as int, n as int),
            t == s@.subrange(from as int, s@.len() as int),
            u == unsigned_part(t),
            value <= 65535,
            value == digits_value(u.subrange(0, i - start)),
            forall|j: int| 0 <= j < i - start ==> is_digit(#[trigger] u[j]),
        decreases n - i,
    {
        let c = s.get_char(i);
        proof {
            assert(u[i - start] == c);
        }
        if c < '0' || c > '9' {
            proof {
                assert(!is_digit(u[i - start]));
            }
            return None;
        }
        value = value * 10 + (c as u32 - '0' as u32);
        i = i + 1;
        proof {
            assert(u.subrange(0, i - start).drop_last() =~= u.subrange(0, i - start - 1));
            assert(u.subrange(0, i - start).last() == c);
        }
        if value > 65535 {
            proof {
                if all_digits(u) {
                    lemma_digits_prefix(u, i - start, u.len() as int);
                    assert(u.subrange(0, u.len() as int) =~= u);
                }
            }
            return None;
        }
    }
    proof {
        assert(u.subrange(0, u.len() as int) =~= u);
    }
    Some(value as u16)
}

/// Index of the last colon of `s`.
fn last_colon(s: &str) -> (r: Option<usize>)
    ensures
        match r {
            Some(k) => k as int == last_index_of(s@, ':') && k < s@.len() && k < usize::MAX,
            None => last_index_of(s@, ':') < 0,
        },
{
    let mut k = s.unicode_len();
    proof {
        assert(s@.subrange(0, k as int) =~= s@);
    }
    while k > 0
        invariant
            k <= s@.len(),
            last_index_of(s@, ':') == last_index_of(s@.subrange(0, k as int), ':'),
        decreases k,
    {
        let c = s.get_char(k - 1);
        proof {
            assert(s@.subrange(0, k as int).drop_last() =~= s@.subrange(0, k - 1));
        }
        if c == ':' {
            proof {
                assert(s@.subrange(0, k as int).last() == c);
            }
            return Some(k - 1);
        }
        k = k - 1;
    }
    None
}

/// End of the label of `d` that starts at `from`.
fn find_label_end(d: &str, from: usize) -> (r: usize)
    requires
        from <= d@.len(),
    ensures
        r as int == label_end(d@, from as int),
{
    let n = d.unicode_len();
    let mut k = from;
    while k < n && d.get_char(k) != '.'
        invariant
            from <= k <= n,
            n == d@.len(),
            label_end(d@, k as int) == label_end(d@, from as int),
        decreases n - k,
    {
        k = k + 1;
    }
    k
}

/// Checks the label `d[from..to]`.
fn check_label(d: &str, from: usize, to: usize) -> (r: bool)
    requires
        from <= to <= d@.len(),
    ensures
        r == valid_label(d@.subrange(from as int, to as int)),
{
    let ghost l = d@.subrange(from as int, to as int);
    if from == to {
        return false;
    }
    let label = d.substring_char(from, to);
    if label.len() > 63 {
        return false;
    }
    let first = d.get_char(from);
    let last = d.get_char(to - 1);
    proof {
        assert(label@ == l);
        assert(l[0] == first);
        assert(l[l.len() - 1] == last);
    }
    if first == '-' || last == '-' {
        return false;
    }
    if char_is_numeric(first) {
        return false;
    }
    let mut k = from;
    while k < to
        invariant
            from <= k <= to,
            to <= d@.len(),
            l == d@.subrange(from as int, to as int),
            forall|j: int| 0 <= j < k - from ==> alphanumeric(#[trigger] l[j]) || l[j] == '-',
        decreases to - k,
    {
        let c = d.get_char(k);
        if !(char_is_alphanumeric(c) || c == '-') {
            proof {
                assert(l[k - from] == c);
            }
            return false;
        }
        proof {
            assert(l[k - from] == c);
        }
        k = k + 1;
    }
    true
}

/// Checks a domain name against the DNS rules.
fn is_valid_domain(d: &str) -> (r: bool)
    ensures
        r == valid_domain(d@),
{
    if d.len() > 253 {
        return false;
    }
    let n = d.unicode_len();
    let mut i: usize = 0;
    loop
        invariant
            i <= n,
            n == d@.len(),
            starts_label(d@, i as int),
            byte_len(d@) <= 253,
            forall|j: int|
                0 <= j < i && #[trigger] starts_label(d@, j) ==> valid_label(
                    d@.subrange(j, label_end(d@, j)),
                ),
        decreases n - i,
    {
        let end = find_label_end(d, i);
        proof {
            lemma_label_end(d@, i as int);
        }
        if !check_label(d, i, end) {
            return false;
        }
        proof {
            assert forall|j: int| i < j <= end implies !#[trigger] starts_label(d@, j) by {
                assert(d@[j - 1] != '.');
            }
        }
        if end == n {
            return true;
        }
        i = end + 1;
    }
}

impl DestinationAddress {
    /// Reads `host:port` text, split at the last colon. `ip_form` is the IP
    /// socket address that `s` spells (`1.2.3.4:80`, `[::1]:80`), if it spells
    /// one; otherwise the host must be a valid domain name.
    pub fn parse(s: &str, ip_form: Option<SocketAddress>) -> (r: Result<DestinationAddress, AddrError>)
        ensures
            match r {
                Ok(d) => parsed_destination(s@, ip_form) == Ok::<DestinationView, AddrError>(d@),
                Err(e) => parsed_destination(s@, ip_form) == Err::<DestinationView, AddrError>(e),
            },
    {
        if let Some(a) = ip_form {
            return Ok(DestinationAddress::Ip(a));
        }
        let k = match last_colon(s) {
            Some(k) => k,
            None => return Err(AddrError::InvalidAddress),
        };
        let port = match parse_port(s, k + 1) {
            Some(p) => p,
            None => return Err(AddrError::InvalidAddress),
        };
        let host = s.substring_char(0, k);
        if !is_valid_domain(host) {
            return Err(AddrError::InvalidAddress);
        }
        Ok(DestinationAddress::Domain(host.to_owned(), port))
    }
}

} // verus!
