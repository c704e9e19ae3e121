use vstd::prelude::*;
use crate::text::{chars_of, decimal, is_digit, lemma_decimal, lemma_numeral, lemma_numeral_canonical, numeral, push_char, push_decimal, read_numeral, string_of};

verus! {

/// The position of the last `c` in `s`, or -1 if there is none.
pub open spec fn last_index(s: Seq<char>, c: char) -> int
    decreases s.len(),
{
    if s.len() == 0 {
        -1
    } else if s.last() == c {
        s.len() - 1
    } else {
        last_index(s.drop_last(), c)
    }
}

pub proof fn lemma_last_index(s: Seq<char>, c: char)
    ensures
        -1 <= last_index(s, c) < s.len(),
        last_index(s, c) >= 0 ==> s[last_index(s, c)] == c,
        forall|j: int| last_index(s, c) < j < s.len() ==> s[j] != c,
    decreases s.len(),
{
    if s.len() > 0 && s.last() != c {
        lemma_last_index(s.drop_last(), c);
        assert forall|j: int| last_index(s, c) < j < s.len() implies s[j] != c by {
            if j < s.len() - 1 {
                assert(s[j] == s.drop_last()[j]);
            }
        }
    }
}

pub open spec fn name_char(c: char) -> bool {
    ('a' <= c && c <= 'z') || is_digit(c) || c == '-' || c == '.'
}

/// A DNS name in canonical form: lowercase letters, digits, hyphens and dots,
/// at most 253 characters, with no empty label.
pub open spec fn valid_name(s: Seq<char>) -> bool {
    &&& 0 < s.len() <= 253
    &&& s[0] != '.'
    &&& s.last() != '.'
    &&& forall|i: int| 0 <= i < s.len() ==> name_char(#[trigger] s[i])
    &&& forall|i: int| 0 <= i < s.len() - 1 ==> !(#[trigger] s[i] == '.' && s[i + 1] == '.')
}

/// `host:port`, the text of a named address.
pub open spec fn name_text(name: Seq<char>, port: u16) -> Seq<char> {
    name + seq![':'] + decimal(port as nat)
}

/// The dotted-quad text of an IPv4 address.
pub open spec fn ip_text(ip: (u8, u8, u8, u8)) -> Seq<char> {
    decimal(ip.0 as nat) + seq!['.'] + decimal(ip.1 as nat) + seq!['.'] + decimal(ip.2 as nat)
        + seq!['.'] + decimal(ip.3 as nat)
}

pub open spec fn socket_text(ip: (u8, u8, u8, u8), port: u16) -> Seq<char> {
    ip_text(ip) + seq![':'] + decimal(port as nat)
}

/// Splits `s` at its last colon into a host and a canonical port numeral.
pub open spec fn split_port(s: Seq<char>) -> Option<(Seq<char>, u16)> {
    let k = last_index(s, ':');
    if k >= 0 && numeral(s.subrange(k + 1, s.len() as int), 65535) is Some {
        Some((s.subrange(0, k), numeral(s.subrange(k + 1, s.len() as int), 65535)->0 as u16))
    } else {
        None
    }
}

/// A name for a logical address: a valid DNS name that is not a bare IPv4
/// address.
pub open spec fn logical_name(h: Seq<char>) -> bool {
    valid_name(h) && parse_quad(h) is None
}

/// The name and port that `s` writes, if it is a `name:port` whose name is
/// a logical one.
pub open spec fn parse_name(s: Seq<char>) -> Option<(Seq<char>, u16)> {
    match split_port(s) {
        Some((h, p)) => if logical_name(h) { Some((h, p)) } else { None },
        None => None,
    }
}

pub open spec fn octet(s: Seq<char>) -> Option<nat> {
    numeral(s, 255)
}

/// The four octets that `h` writes as a dotted quad, if it does.
pub open spec fn parse_quad(h: Seq<char>) -> Option<(u8, u8, u8, u8)> {
    let k3 = last_index(h, '.');
    let h3 = h.subrange(0, k3);
    let k2 = last_index(h3, '.');
    let h2 = h.subrange(0, k2);
    let k1 = last_index(h2, '.');
    let h1 = h.subrange(0, k1);
    if k3 >= 0 && k2 >= 0 && k1 >= 0 && last_index(h1, '.') < 0 {
        match (
            octet(h1),
            octet(h.subrange(k1 + 1, k2)),
            octet(h.subrange(k2 + 1, k3)),
            octet(h.subrange(k3 + 1, h.len() as int)),
        ) {
            (Some(a), Some(b), Some(c), Some(d)) => Some((a as u8, b as u8, c as u8, d as u8)),
            _ => None,
        }
    } else {
        None
    }
}

/// The IPv4 address and port that `s` writes, if it is a valid `a.b.c.d:port`.
pub open spec fn parse_socket(s: Seq<char>) -> Option<((u8, u8, u8, u8), u16)> {
    match split_port(s) {
        Some((h, p)) => match parse_quad(h) {
            Some(ip) => Some((ip, p)),
            None => None,
        },
        None => None,
    }
}

/// The text of an address is not in the grammar.
#[derive(Clone, Copy, Debug, PartialEq, Eq)]
pub struct InvalidAddr;

/// The position of the last `c` in `s[..end]`.
pub fn find_last(s: &Vec<char>, end: usize, c: char) -> (r: Option<usize>)
    requires
        end <= s@.len(),
    ensures
        match r {
            Some(k) => k < end && k as int == last_index(s@.subrange(0, end as int), c),
            None => last_index(s@.subrange(0, end as int), c) == -1,
        },
{
    proof {
        lemma_last_index(s@.subrange(0, end as int), c);
    }
    let mut i: usize = end;
    while i > 0
        invariant
            i <= end <= s@.len(),
            last_index(s@.subrange(0, end as int), c) == last_index(s@.subrange(0, i as int), c),
        decreases i,
    {
        let ghost t = s@.subrange(0, i as int);
        assert(t.drop_last() =~= s@.subrange(0, i - 1));
        if s[i - 1] == c {
            return Some(i - 1);
        }
        i = i - 1;
    }
    assert(s@.subrange(0, 0) =~= Seq::<char>::empty());
    None
}

/// Whether `s[..end]` is a valid name.
pub fn check_name(s: &Vec<char>, end: usize) -> (r: bool)
    requires
        end <= s@.len(),
    ensures
        r == valid_name(s@.subrange(0, end as int)),
{
    let ghost t = s@.subrange(0, end as int);
    if end == 0 || end > 253 || s[0] == '.' || s[end - 1] == '.' {
        return false;
    }
    let mut i: usize = 0;
    while i < end
        invariant
            i <= end <= s@.len(),
            0 < end <= 253,
            t == s@.subrange(0, end as int),
            t[0] != '.',
            t.last() != '.',
            forall|j: int| 0 <= j < i ==> name_char(#[trigger] t[j]),
            forall|j: int| 0 <= j < i && j < end - 1 ==> !(#[trigger] t[j] == '.' && t[j + 1] == '.'),
        decreases end - i,
    {
        let c = s[i];
        if !(('a' <= c && c <= 'z') || ('0' <= c && c <= '9') || c == '-' || c == '.') {
            assert(!name_char(t[i as int]));
            return false;
        }
        if i + 1 < end && c == '.' && s[i + 1] == '.' {
            assert(t[i as int] == '.' && t[i + 1] == '.');
            return false;
        }
        i = i + 1;
    }
    true
}

/// Splits `s` at its last colon into the host's end and the port.
fn read_port(s: &Vec<char>) -> (r: Option<(usize, u16)>)
    ensures
        match r {
            Some((k, p)) => k <= s@.len() && split_port(s@) == Some((s@.subrange(0, k as int), p)),
            None => split_port(s@) is None,
        },
{
    assert(s@.subrange(0, s@.len() as int) =~= s@);
    match find_last(s, s.len(), ':') {
        None => None,
        Some(k) => match read_numeral(s, k + 1, s.len(), 65535) {
            None => None,
            Some(p) => Some((k, p as u16)),
        },
    }
}

/// Reads the dotted quad in `s[..end]`.
fn read_quad(s: &Vec<char>, end: usize) -> (r: Option<(u8, u8, u8, u8)>)
    requires
        end <= s@.len(),
    ensures
        r == parse_quad(s@.subrange(0, end as int)),
{
    let ghost h = s@.subrange(0, end as int);
    let k3 = match find_last(s, end, '.') {
        Some(k) => k,
        None => return None,
    };
    assert(h.subrange(0, k3 as int) =~= s@.subrange(0, k3 as int));
    let k2 = match find_last(s, k3, '.') {
        Some(k) => k,
        None => return None,
    };
    assert(h.subrange(0, k2 as int) =~= s@.subrange(0, k2 as int));
    let k1 = match find_last(s, k2, '.') {
        Some(k) => k,
        None => return None,
    };
    assert(h.subrange(0, k1 as int) =~= s@.subrange(0, k1 as int));
    if find_last(s, k1, '.').is_some() {
        return None;
    }
    assert(h.subrange(k1 + 1, k2 as int) =~= s@.subrange(k1 + 1, k2 as int));
    assert(h.subrange(k2 + 1, k3 as int) =~= s@.subrange(k2 + 1, k3 as int));
    assert(h.subrange(k3 + 1, h.len() as int) =~= s@.subrange(k3 + 1, end as int));
    let a = read_numeral(s, 0, k1, 255);
    let b = read_numeral(s, k1 + 1, k2, 255);
    let c = read_numeral(s, k2 + 1, k3, 255);
    let d = read_numeral(s, k3 + 1, end, 255);
    match (a, b, c, d) {
        (Some(a), Some(b), Some(c), Some(d)) => Some((a as u8, b as u8, c as u8, d as u8)),
        _ => None,
    }
}

} // verus!

verus! {

/// A named address: a canonical DNS name and a port.
#[derive(Clone, Debug, PartialEq, Eq, Hash)]
pub struct NameAddr {
    name: String,
    port: u16,
}

/// An IPv4 socket address.
#[derive(Clone, Copy, Debug, PartialEq, Eq, Hash)]
pub struct SocketAddr {
    pub ip: (u8, u8, u8, u8),
    pub port: u16,
}

/// An address that is either named or a socket address.
#[derive(Clone, Debug, PartialEq, Eq, Hash)]
pub enum Addr {
    Name(NameAddr),
    Socket(SocketAddr),
}

impl NameAddr {
    pub closed spec fn view(&self) -> (Seq<char>, u16) {
        (self.name@, self.port)
    }

    pub open spec fn wf(&self) -> bool {
        logical_name(self@.0)
    }

    /// Parses `name:port`.
    pub fn from_str(s: &str) -> (r: Result<NameAddr, InvalidAddr>)
        ensures
            match r {
                Ok(a) => a.wf() && parse_name(s@) == Some(a@),
                Err(_) => parse_name(s@) is None,
            },
    {
        let cs = chars_of(s);
        match read_port(&cs) {
            None => Err(InvalidAddr),
            Some((k, port)) => {
                if check_name(&cs, k) && read_quad(&cs, k).is_none() {
                    let name = string_of(&cs, 0, k);
                    Ok(NameAddr { name, port })
                } else {
                    Err(InvalidAddr)
                }
            },
        }
    }

    pub fn name(&self) -> (r: &str)
        ensures
            r@ == self@.0,
    {
        self.name.as_str()
    }

    pub fn port(&self) -> (r: u16)
        ensures
            r == self@.1,
    {
        self.port
    }

    /// The text `name:port`.
    pub fn to_text(&self) -> (r: String)
        ensures
            r@ == name_text(self@.0, self@.1),
    {
        let mut out = self.name.clone();
        push_char(&mut out, ':');
        push_decimal(&mut out, self.port as u32);
        out
    }

    /// A copy that is equal in every field.
    pub fn copy(&self) -> (r: Self)
        ensures
            r@ == self@,
    {
        NameAddr { name: self.name.clone(), port: self.port }
    }
}

impl SocketAddr {
    /// Parses `a.b.c.d:port`.
    pub fn from_str(s: &str) -> (r: Result<SocketAddr, InvalidAddr>)
        ensures
            match r {
                Ok(a) => parse_socket(s@) == Some((a.ip, a.port)),
                Err(_) => parse_socket(s@) is None,
            },
    {
        let cs = chars_of(s);
        match read_port(&cs) {
            None => Err(InvalidAddr),
            Some((k, port)) => match read_quad(&cs, k) {
                Some(ip) => Ok(SocketAddr { ip, port }),
                None => Err(InvalidAddr),
            },
        }
    }

    /// The text `a.b.c.d:port`.
    pub fn to_text(&self) -> (r: String)
        ensures
            r@ == socket_text(self.ip, self.port),
    {
        let mut out = String::new();
        push_decimal(&mut out, self.ip.0 as u32);
        push_char(&mut out, '.');
        push_decimal(&mut out, self.ip.1 as u32);
        push_char(&mut out, '.');
        push_decimal(&mut out, self.ip.2 as u32);
        push_char(&mut out, '.');
        push_decimal(&mut out, self.ip.3 as u32);
        push_char(&mut out, ':');
        push_decimal(&mut out, self.port as u32);
        assert(out@ =~= socket_text(self.ip, self.port));
        out
    }
}

/// The text of an address.
pub open spec fn addr_text(a: Addr) -> Seq<char> {
    match a {
        Addr::Name(n) => name_text(n@.0, n@.1),
        Addr::Socket(s) => socket_text(s.ip, s.port),
    }
}

/// What parsing `s` as an address gives: a socket address where `s` is one,
/// else a named address where it is one.
pub open spec fn addr_parses_as(s: Seq<char>, a: Addr) -> bool {
    match a {
        Addr::Socket(x) => parse_socket(s) == Some((x.ip, x.port)),
        Addr::Name(n) => parse_socket(s) is None && n.wf() && parse_name(s) == Some(n@),
    }
}

impl Addr {
    pub open spec fn wf(&self) -> bool {
        match self {
            Addr::Name(n) => n.wf(),
            Addr::Socket(_) => true,
        }
    }

    /// Parses a socket address, or failing that a named address.
    pub fn from_str(s: &str) -> (r: Result<Addr, InvalidAddr>)
        ensures
            match r {
                Ok(a) => addr_parses_as(s@, a),
                Err(_) => parse_socket(s@) is None && parse_name(s@) is None,
            },
    {
        match SocketAddr::from_str(s) {
            Ok(x) => Ok(Addr::Socket(x)),
            Err(_) => match NameAddr::from_str(s) {
                Ok(n) => Ok(Addr::Name(n)),
                Err(e) => Err(e),
            },
        }
    }

    pub fn to_text(&self) -> (r: String)
        ensures
            r@ == addr_text(*self),
    {
        match self {
            Addr::Name(n) => n.to_text(),
            Addr::Socket(x) => x.to_text(),
        }
    }
}

} // verus!

verus! {

proof fn lemma_last_index_split(x: Seq<char>, c: char, y: Seq<char>)
    requires
        forall|j: int| 0 <= j < y.len() ==> y[j] != c,
    ensures
        last_index(x + seq![c] + y, c) == x.len(),
    decreases y.len(),
{
    let s = x + seq![c] + y;
    if y.len() == 0 {
        assert(s.last() == c);
    } else {
        assert(s.last() == y.last());
        assert(s.drop_last() =~= x + seq![c] + y.drop_last());
        lemma_last_index_split(x, c, y.drop_last());
    }
}

proof fn lemma_last_index_none(y: Seq<char>, c: char)
    requires
        forall|j: int| 0 <= j < y.len() ==> y[j] != c,
    ensures
        last_index(y, c) == -1,
    decreases y.len(),
{
    if y.len() > 0 {
        assert(y.last() == y[y.len() - 1]);
        lemma_last_index_none(y.drop_last(), c);
    }
}

proof fn lemma_decimal_digits(n: nat)
    ensures
        forall|j: int| 0 <= j < decimal(n).len() ==> decimal(n)[j] != ':' && decimal(n)[j] != '.',
{
    lemma_decimal(n);
    assert forall|j: int| 0 <= j < decimal(n).len() implies decimal(n)[j] != ':' && decimal(n)[j] != '.' by {
        assert(is_digit(decimal(n)[j]));
    }
}

/// Splitting `h:port` at its last colon gives `h` and the port back, when
/// `h` holds no colon.
proof fn lemma_split_port_text(h: Seq<char>, p: u16)
    ensures
        split_port(h + seq![':'] + decimal(p as nat)) == Some((h, p)),
{
    let s = h + seq![':'] + decimal(p as nat);
    lemma_decimal_digits(p as nat);
    lemma_last_index_split(h, ':', decimal(p as nat));
    assert(s.subrange(h.len() as int + 1, s.len() as int) =~= decimal(p as nat));
    assert(s.subrange(0, h.len() as int) =~= h);
    lemma_numeral(p as nat, 65535);
}

/// Joining what `split_port` gives yields the text it was split from.
proof fn lemma_split_port_canonical(s: Seq<char>)
    requires
        split_port(s) is Some,
    ensures
        (split_port(s)->0).0 + seq![':'] + decimal((split_port(s)->0).1 as nat) == s,
{
    let k = last_index(s, ':');
    lemma_last_index(s, ':');
    let t = s.subrange(k + 1, s.len() as int);
    lemma_numeral_canonical(t, 65535);
    assert(s.subrange(0, k) + seq![':'] + t =~= s);
}

proof fn lemma_quad_text(ip: (u8, u8, u8, u8))
    ensures
        parse_quad(ip_text(ip)) == Some(ip),
{
    let d0 = decimal(ip.0 as nat);
    let d1 = decimal(ip.1 as nat);
    let d2 = decimal(ip.2 as nat);
    let d3 = decimal(ip.3 as nat);
    lemma_decimal_digits(ip.0 as nat);
    lemma_decimal_digits(ip.1 as nat);
    lemma_decimal_digits(ip.2 as nat);
    lemma_decimal_digits(ip.3 as nat);
    lemma_numeral(ip.0 as nat, 255);
    lemma_numeral(ip.1 as nat, 255);
    lemma_numeral(ip.2 as nat, 255);
    lemma_numeral(ip.3 as nat, 255);
    let h1 = d0;
    let h2 = d0 + seq!['.'] + d1;
    let h3 = h2 + seq!['.'] + d2;
    let h = h3 + seq!['.'] + d3;
    assert(h =~= ip_text(ip));
    lemma_last_index_split(h3, '.', d3);
    assert(h.subrange(0, h3.len() as int) =~= h3);
    lemma_last_index_split(h2, '.', d2);
    assert(h.subrange(0, h2.len() as int) =~= h2);
    lemma_last_index_split(h1, '.', d1);
    assert(h.subrange(0, h1.len() as int) =~= h1);
    lemma_last_index_none(h1, '.');
    assert(h.subrange(h1.len() as int + 1, h2.len() as int) =~= d1);
    assert(h.subrange(h2.len() as int + 1, h3.len() as int) =~= d2);
    assert(h.subrange(h3.len() as int + 1, h.len() as int) =~= d3);
}

proof fn lemma_quad_canonical(h: Seq<char>)
    requires
        parse_quad(h) is Some,
    ensures
        ip_text(parse_quad(h)->0) == h,
{
    let ip = parse_quad(h)->0;
    let k3 = last_index(h, '.');
    let h3 = h.subrange(0, k3);
    lemma_last_index(h, '.');
    let k2 = last_index(h3, '.');
    lemma_last_index(h3, '.');
    let h2 = h.subrange(0, k2);
    let k1 = last_index(h2, '.');
    lemma_last_index(h2, '.');
    assert(h3.subrange(0, k2) =~= h2);
    let h1 = h.subrange(0, k1);
    let t1 = h.subrange(k1 + 1, k2);
    let t2 = h.subrange(k2 + 1, k3);
    let t3 = h.subrange(k3 + 1, h.len() as int);
    lemma_numeral_canonical(h1, 255);
    lemma_numeral_canonical(t1, 255);
    lemma_numeral_canonical(t2, 255);
    lemma_numeral_canonical(t3, 255);
    assert(h1 + seq!['.'] + t1 + seq!['.'] + t2 + seq!['.'] + t3 =~= h);
}

/// Parsing the text of a valid address gives that address back.
pub proof fn lemma_text_parses(a: Addr)
    requires
        a.wf(),
    ensures
        addr_parses_as(addr_text(a), a),
{
    match a {
        Addr::Name(n) => {
            lemma_split_port_text(n@.0, n@.1);
        },
        Addr::Socket(x) => {
            lemma_split_port_text(ip_text(x.ip), x.port);
            lemma_quad_text(x.ip);
        },
    }
}

/// Whether two addresses are the same address: the same kind, with the same
/// name or IP, and the same port.
pub open spec fn same_addr(a: Addr, b: Addr) -> bool {
    match (a, b) {
        (Addr::Name(x), Addr::Name(y)) => x@ == y@,
        (Addr::Socket(x), Addr::Socket(y)) => x.ip == y.ip && x.port == y.port,
        _ => false,
    }
}

/// Parsing is a function of the text: two parses of one text give the same
/// address.
pub proof fn lemma_parse_deterministic(s: Seq<char>, a: Addr, b: Addr)
    requires
        addr_parses_as(s, a),
        addr_parses_as(s, b),
    ensures
        same_addr(a, b),
{
}

/// Formatting a parsed address gives back exactly the text it was parsed
/// from: the grammar accepts only canonical text.
pub proof fn lemma_parsed_formats_back(s: Seq<char>, a: Addr)
    requires
        addr_parses_as(s, a),
    ensures
        addr_text(a) == s,
{
    lemma_split_port_canonical(s);
    match a {
        Addr::Name(n) => {},
        Addr::Socket(x) => {
            lemma_quad_canonical((split_port(s)->0).0);
        },
    }
}

} // verus!
