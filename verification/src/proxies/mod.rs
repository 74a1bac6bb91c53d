//! Proxies, their text forms, and the parser for `address:port` entries.
use vstd::prelude::*;

use crate::text::{
    chars_of, decimal, fields_view, join_decimal, lemma_join_lacks, lemma_parse_decimal,
    lemma_split_append, lemma_split_join, lemma_split_len, lemma_split_single,
    parse_unsigned, parse_unsigned_chars, push_decimal, push_joined, push_text, split,
    split_chars,
};
use crate::utils::time;

pub mod checker;

verus! {

/// The protocol a proxy was found to speak.
#[allow(non_camel_case_types)]
#[derive(Debug, Clone, Copy, PartialEq, Eq, Structural)]
pub enum ProxyType {
    HTTP,
    HTTPS,
    SOCKS4,
    SOCKS5,
    UNKNOWN,
    INVALID,
}

/// How much of the client a proxy reveals.
#[derive(Debug, Clone, Copy, PartialEq, Eq, Structural)]
pub enum ProxyAnonymity {
    Anonymous,
    Transparent,
    Elite,
}

/// An IPv4 proxy and what its checks found.
#[derive(Debug, Clone, Copy)]
pub struct ProxyV4 {
    pub addr: [u8; 4],
    pub port: u16,
    pub found_at: u128,
    pub last_checked: u128,
    pub proxy_type: ProxyType,
    pub anonymity: ProxyAnonymity,
    pub google: bool,
    pub ping: u128,
}

/// An IPv6 proxy.
#[derive(Debug, Clone, Copy)]
pub struct ProxyV6 {
    pub addr: [u8; 16],
    pub port: u16,
    pub found_at: u64,
    pub last_checked: u64,
    pub proxy_type: ProxyType,
    pub anonymity: ProxyAnonymity,
    pub google: bool,
    /// Bits per second.
    pub speed: u32,
    pub ping: u128,
}

/// What the text of an entry holds, read as `address:port`.
pub enum Endpoint {
    /// The entry has no `:`, so it names no port.
    NoPort,
    /// The entry has a port field, but the port or the address is not well formed.
    Malformed,
    /// The first four fields of the address, and the port.
    Address([u8; 4], u16),
}

/// The fields of an entry separated by `:`.
pub open spec fn colon_fields(s: Seq<char>) -> Seq<Seq<char>> {
    split(s, ':')
}

/// Whether the entry has a second `:`-separated field, the port.
pub open spec fn has_port(s: Seq<char>) -> bool {
    colon_fields(s).len() >= 2
}

/// The `.`-separated fields of the address, the entry's first `:`-separated field.
pub open spec fn host_fields(s: Seq<char>) -> Seq<Seq<char>> {
    split(colon_fields(s)[0], '.')
}

/// The port and every address field read as numbers, and there are at least four
/// address fields.
pub open spec fn address_well_formed(s: Seq<char>) -> bool {
    &&& parse_unsigned(colon_fields(s)[1], 65535) is Some
    &&& host_fields(s).len() >= 4
    &&& forall|i: int|
        0 <= i < host_fields(s).len() ==> (#[trigger] parse_unsigned(host_fields(s)[i], 255)) is Some
}

/// The inputs on which parsing an entry returns: it has no port, or it is well formed.
pub open spec fn parses(s: Seq<char>) -> bool {
    !has_port(s) || address_well_formed(s)
}

/// The port of a well-formed entry.
pub open spec fn port_value(s: Seq<char>) -> int {
    parse_unsigned(colon_fields(s)[1], 65535)->0
}

/// The first four address bytes of a well-formed entry.
pub open spec fn host_bytes(s: Seq<char>) -> Seq<u8> {
    Seq::new(4, |i: int| (parse_unsigned(host_fields(s)[i], 255)->0) as u8)
}

/// A proxy just read from an entry: found at `now`, never checked.
pub open spec fn is_fresh(p: ProxyV4, now: u128) -> bool {
    &&& p.found_at == now
    &&& p.last_checked == 0
    &&& p.proxy_type == ProxyType::UNKNOWN
    &&& p.anonymity == ProxyAnonymity::Transparent
    &&& !p.google
    &&& p.ping == 0
}

/// What parsing the entry gives when it is found at `now` (on entries that `parses`).
pub open spec fn parsed_at(s: Seq<char>, now: u128, r: Option<ProxyV4>) -> bool {
    match r {
        None => !has_port(s),
        Some(p) => {
            &&& has_port(s)
            &&& p.addr@ == host_bytes(s)
            &&& p.port == port_value(s)
            &&& is_fresh(p, now)
        },
    }
}

impl ProxyV4 {
    /// The text form `a.b.c.d:port`.
    pub open spec fn text(&self) -> Seq<char> {
        join_decimal(self.addr@, '.') + seq![':'] + decimal(self.port as nat)
    }

    /// The URI by which the proxy is reached with the given protocol.
    pub open spec fn uri_text(&self, proxy_type: ProxyType) -> Seq<char> {
        match proxy_type {
            ProxyType::HTTP => "http://"@ + self.text(),
            ProxyType::HTTPS => "https://"@ + self.text(),
            ProxyType::SOCKS4 => "socks4://"@ + self.text() + seq![':'] + decimal(self.port as nat),
            ProxyType::SOCKS5 => "socks5://"@ + self.text() + seq![':'] + decimal(self.port as nat),
            _ => self.text() + seq![':'] + decimal(self.port as nat),
        }
    }

    /// Reads an entry `a.b.c.d:port`, found now. An entry without `:` gives `None`.
    /// Fields after the port and address fields after the fourth are read and then
    /// left aside.
    pub fn parse(proxy: &String) -> (r: Option<ProxyV4>)
        requires
            parses(proxy@),
        ensures
            r is None <==> !has_port(proxy@),
            r matches Some(p) ==> p.addr@ == host_bytes(proxy@) && p.port == port_value(proxy@)
                && exists|now: u128| is_fresh(p, now),
    {
        let now = time::now();
        Self::parse_at(proxy, now)
    }

    /// Reads an entry `a.b.c.d:port`, found at `now`.
    pub fn parse_at(proxy: &String, now: u128) -> (r: Option<ProxyV4>)
        requires
            parses(proxy@),
        ensures
            parsed_at(proxy@, now, r),
    {
        match read_endpoint(proxy) {
            Endpoint::NoPort => None,
            Endpoint::Malformed => {
                proof {
                    assert(false);
                }
                None
            },
            Endpoint::Address(addr, port) => Some(
                ProxyV4 {
                    addr,
                    port,
                    found_at: now,
                    last_checked: 0,
                    proxy_type: ProxyType::UNKNOWN,
                    anonymity: ProxyAnonymity::Transparent,
                    google: false,
                    ping: 0,
                },
            ),
        }
    }

    /// The text form `a.b.c.d:port`.
    pub fn to_string(&self) -> (r: String)
        ensures
            r@ == self.text(),
    {
        let mut s = String::new();
        proof {
            reveal_strlit(".");
            reveal_strlit(":");
            assert("."@ =~= seq!['.']);
            assert(":"@ =~= seq![':']);
        }
        push_joined(&mut s, &self.addr, ".", Ghost('.'));
        push_text(&mut s, ":");
        push_decimal(&mut s, self.port);
        assert(s@ =~= self.text());
        s
    }

    /// The URI by which the proxy is reached with the given protocol. SOCKS URIs, and
    /// those of the other types, repeat the port after the text form.
    pub fn uri(&self, proxy_type: ProxyType) -> (r: String)
        ensures
            r@ == self.uri_text(proxy_type),
    {
        let text = self.to_string();
        let mut s = String::new();
        proof {
            reveal_strlit(":");
        }
        match proxy_type {
            ProxyType::HTTP => {
                push_text(&mut s, "http://");
                push_text(&mut s, text.as_str());
            },
            ProxyType::HTTPS => {
                push_text(&mut s, "https://");
                push_text(&mut s, text.as_str());
            },
            ProxyType::SOCKS4 => {
                push_text(&mut s, "socks4://");
                push_text(&mut s, text.as_str());
                push_text(&mut s, ":");
                push_decimal(&mut s, self.port);
            },
            ProxyType::SOCKS5 => {
                push_text(&mut s, "socks5://");
                push_text(&mut s, text.as_str());
                push_text(&mut s, ":");
                push_decimal(&mut s, self.port);
            },
            _ => {
                push_text(&mut s, text.as_str());
                push_text(&mut s, ":");
                push_decimal(&mut s, self.port);
            },
        }
        assert(s@ =~= self.uri_text(proxy_type));
        s
    }

    /// `http://a.b.c.d:port`.
    pub fn as_http(&self) -> (r: String)
        ensures
            r@ == self.uri_text(ProxyType::HTTP),
    {
        let text = self.to_string();
        let mut s = String::new();
        push_text(&mut s, "http://");
        push_text(&mut s, text.as_str());
        s
    }

    /// `https://a.b.c.d:port`.
    pub fn as_https(&self) -> (r: String)
        ensures
            r@ == self.uri_text(ProxyType::HTTPS),
    {
        let text = self.to_string();
        let mut s = String::new();
        push_text(&mut s, "https://");
        push_text(&mut s, text.as_str());
        s
    }
}

impl ProxyV6 {
    /// The text form: the sixteen address bytes in decimal, separated by `:`, then `:port`.
    pub open spec fn text(&self) -> Seq<char> {
        join_decimal(self.addr@, ':') + seq![':'] + decimal(self.port as nat)
    }

    /// The text form: the sixteen address bytes in decimal, separated by `:`, then `:port`.
    pub fn to_string(&self) -> (r: String)
        ensures
            r@ == self.text(),
    {
        let mut s = String::new();
        proof {
            reveal_strlit(":");
            assert(":"@ =~= seq![':']);
        }
        push_joined(&mut s, &self.addr, ":", Ghost(':'));
        push_text(&mut s, ":");
        push_decimal(&mut s, self.port);
        assert(s@ =~= self.text());
        s
    }
}

/// Reads the text of an entry as `address:port`.
pub fn read_endpoint(proxy: &String) -> (r: Endpoint)
    ensures
        r is NoPort <==> !has_port(proxy@),
        r is Malformed <==> has_port(proxy@) && !address_well_formed(proxy@),
        r matches Endpoint::Address(addr, port) ==> addr@ == host_bytes(proxy@) && port
            == port_value(proxy@),
{
    let chars = chars_of(proxy.as_str());
    let fields = split_chars(&chars, ':');
    let ghost s = proxy@;
    proof {
        lemma_split_len(s, ':');
    }
    if fields.len() < 2 {
        return Endpoint::NoPort;
    }
    assert(fields@[1]@ == colon_fields(s)[1]);
    assert(fields@[0]@ == colon_fields(s)[0]);
    let port = match parse_unsigned_chars(&fields[1], 65535) {
        Some(p) => p,
        None => {
            return Endpoint::Malformed;
        },
    };
    let host = split_chars(&fields[0], '.');
    let mut bytes: Vec<u8> = Vec::new();
    let mut i: usize = 0;
    while i < host.len()
        invariant
            i <= host@.len(),
            fields_view(host@) == host_fields(s),
            s == proxy@,
            has_port(s),
            parse_unsigned(colon_fields(s)[1], 65535) is Some,
            bytes@.len() == i,
            forall|j: int| 0 <= j < i ==> (#[trigger] parse_unsigned(host_fields(s)[j], 255))
                == Some(bytes@[j] as int),
        decreases host@.len() - i,
    {
        assert(host@[i as int]@ == host_fields(s)[i as int]);
        match parse_unsigned_chars(&host[i], 255) {
            Some(b) => {
                bytes.push(b as u8);
            },
            None => {
                return Endpoint::Malformed;
            },
        }
        i = i + 1;
    }
    if bytes.len() < 4 {
        return Endpoint::Malformed;
    }
    let addr: [u8; 4] = [bytes[0], bytes[1], bytes[2], bytes[3]];
    assert(addr@ =~= host_bytes(s));
    Endpoint::Address(addr, port as u16)
}

/// Reads a level of anonymity, in any mix of upper and lower case.
pub fn parse_anonymity(s: &str) -> (r: Result<ProxyAnonymity, ()>)
    ensures
        r == anonymity_named(s@),
{
    let chars = chars_of(s);
    proof {
        reveal_strlit("anonymous");
        reveal_strlit("ANONYMOUS");
        reveal_strlit("transparent");
        reveal_strlit("TRANSPARENT");
        reveal_strlit("elite");
        reveal_strlit("ELITE");
    }
    if same_ignoring_case(&chars, "anonymous", "ANONYMOUS") {
        Ok(ProxyAnonymity::Anonymous)
    } else if same_ignoring_case(&chars, "transparent", "TRANSPARENT") {
        Ok(ProxyAnonymity::Transparent)
    } else if same_ignoring_case(&chars, "elite", "ELITE") {
        Ok(ProxyAnonymity::Elite)
    } else {
        Err(())
    }
}

/// `s` spells `lower`, each character in lower case or as in `upper`.
pub open spec fn spells(s: Seq<char>, lower: Seq<char>, upper: Seq<char>) -> bool {
    &&& s.len() == lower.len()
    &&& forall|i: int| 0 <= i < s.len() ==> #[trigger] s[i] == lower[i] || s[i] == upper[i]
}

/// The level of anonymity that a text names, whatever its case.
pub open spec fn anonymity_named(s: Seq<char>) -> Result<ProxyAnonymity, ()> {
    if spells(s, "anonymous"@, "ANONYMOUS"@) {
        Ok(ProxyAnonymity::Anonymous)
    } else if spells(s, "transparent"@, "TRANSPARENT"@) {
        Ok(ProxyAnonymity::Transparent)
    } else if spells(s, "elite"@, "ELITE"@) {
        Ok(ProxyAnonymity::Elite)
    } else {
        Err(())
    }
}

fn same_ignoring_case(s: &Vec<char>, lower: &str, upper: &str) -> (r: bool)
    requires
        lower@.len() == upper@.len(),
    ensures
        r == spells(s@, lower@, upper@),
{
    let n = lower.unicode_len();
    if s.len() != n {
        return false;
    }
    let mut i: usize = 0;
    while i < n
        invariant
            n == lower@.len(),
            n == upper@.len(),
            n == s@.len(),
            i <= n,
            forall|j: int| 0 <= j < i ==> #[trigger] s@[j] == lower@[j] || s@[j] == upper@[j],
        decreases n - i,
    {
        let c = s[i];
        if c != lower.get_char(i) && c != upper.get_char(i) {
            return false;
        }
        i = i + 1;
    }
    true
}

impl core::str::FromStr for ProxyAnonymity {
    type Err = ();

    fn from_str(s: &str) -> (r: Result<Self, Self::Err>)
        ensures
            r == anonymity_named(s@),
    {
        parse_anonymity(s)
    }
}

/// Parsing the text form of a proxy gives back its address and port.
pub proof fn lemma_parse_text(p: ProxyV4)
    ensures
        has_port(p.text()),
        parses(p.text()),
        host_bytes(p.text()) == p.addr@,
        port_value(p.text()) == p.port,
{
    let host = join_decimal(p.addr@, '.');
    let port = decimal(p.port as nat);
    assert(p.addr@.len() == 4);
    lemma_join_lacks(p.addr@, '.', ':');
    lemma_split_single(host, ':');
    lemma_parse_decimal(p.port as nat, 65535);
    lemma_split_append(host, port, ':');
    assert(host + seq![':'] + port == p.text());
    assert(colon_fields(p.text()) =~= seq![host, port]);
    lemma_split_join(p.addr@, '.');
    let fields = host_fields(p.text());
    assert(fields == p.addr@.map_values(|b: u8| decimal(b as nat)));
    assert forall|i: int| 0 <= i < fields.len() implies (#[trigger] parse_unsigned(fields[i], 255))
        == Some(p.addr@[i] as int) by {
        lemma_parse_decimal(p.addr@[i] as nat, 255);
    }
    assert(host_bytes(p.text()) =~= p.addr@);
}

/// A character in lower case, where it is an ASCII capital.
pub open spec fn lower_char(c: char) -> char {
    if 'A' <= c && c <= 'Z' {
        ((c as int) + 32) as char
    } else {
        c
    }
}

/// A text with its ASCII capitals in lower case.
pub open spec fn lower_text(s: Seq<char>) -> Seq<char> {
    s.map_values(|c: char| lower_char(c))
}

/// `upper` is `lower` in capitals, and `lower` is all lower-case ASCII letters.
pub open spec fn capitals_of(lower: Seq<char>, upper: Seq<char>) -> bool {
    &&& lower.len() == upper.len()
    &&& forall|i: int|
        0 <= i < lower.len() ==> 'a' <= #[trigger] lower[i] && lower[i] <= 'z' && upper[i] as int
            == lower[i] as int - 32
}

proof fn lemma_spells_is_lower(s: Seq<char>, lower: Seq<char>, upper: Seq<char>)
    requires
        capitals_of(lower, upper),
    ensures
        spells(s, lower, upper) <==> lower_text(s) == lower,
        spells(lower_text(s), lower, upper) <==> lower_text(s) == lower,
{
    let t = lower_text(s);
    if spells(s, lower, upper) {
        assert forall|i: int| 0 <= i < t.len() implies t[i] == lower[i] by {
            assert(s[i] == lower[i] || s[i] == upper[i]);
            assert('a' <= lower[i] && lower[i] <= 'z');
        }
        assert(t =~= lower);
    }
    if t == lower {
        assert forall|i: int| 0 <= i < s.len() implies #[trigger] s[i] == lower[i] || s[i] == upper[i] by {
            assert(t[i] == lower_char(s[i]));
            assert('a' <= lower[i] && lower[i] <= 'z');
        }
        assert forall|i: int| 0 <= i < t.len() implies #[trigger] t[i] == lower[i] || t[i] == upper[i] by {
        }
    }
    if spells(t, lower, upper) {
        assert forall|i: int| 0 <= i < t.len() implies t[i] == lower[i] by {
            assert(t[i] == lower_char(s[i]));
            assert(t[i] == lower[i] || t[i] == upper[i]);
            assert('a' <= lower[i] && lower[i] <= 'z');
        }
        assert(t =~= lower);
    }
}

proof fn lemma_level_names()
    ensures
        capitals_of("anonymous"@, "ANONYMOUS"@),
        capitals_of("transparent"@, "TRANSPARENT"@),
        capitals_of("elite"@, "ELITE"@),
        "anonymous"@.len() == 9,
        "transparent"@.len() == 11,
        "elite"@.len() == 5,
{
    reveal_strlit("anonymous");
    reveal_strlit("ANONYMOUS");
    reveal_strlit("transparent");
    reveal_strlit("TRANSPARENT");
    reveal_strlit("elite");
    reveal_strlit("ELITE");
    assert("anonymous"@ =~= seq!['a', 'n', 'o', 'n', 'y', 'm', 'o', 'u', 's']);
    assert("ANONYMOUS"@ =~= seq!['A', 'N', 'O', 'N', 'Y', 'M', 'O', 'U', 'S']);
    assert("transparent"@ =~= seq!['t', 'r', 'a', 'n', 's', 'p', 'a', 'r', 'e', 'n', 't']);
    assert("TRANSPARENT"@ =~= seq!['T', 'R', 'A', 'N', 'S', 'P', 'A', 'R', 'E', 'N', 'T']);
    assert("elite"@ =~= seq!['e', 'l', 'i', 't', 'e']);
    assert("ELITE"@ =~= seq!['E', 'L', 'I', 'T', 'E']);
    assert forall|i: int| 0 <= i < 9 implies 'a' <= #[trigger] "anonymous"@[i] && "anonymous"@[i] <= 'z'
        && "ANONYMOUS"@[i] as int == "anonymous"@[i] as int - 32 by {
        if i == 0 {} else if i == 1 {} else if i == 2 {} else if i == 3 {} else if i == 4 {}
        else if i == 5 {} else if i == 6 {} else if i == 7 {} else {}
    }
    assert forall|i: int| 0 <= i < 11 implies 'a' <= #[trigger] "transparent"@[i] && "transparent"@[i] <= 'z'
        && "TRANSPARENT"@[i] as int == "transparent"@[i] as int - 32 by {
        if i == 0 {} else if i == 1 {} else if i == 2 {} else if i == 3 {} else if i == 4 {}
        else if i == 5 {} else if i == 6 {} else if i == 7 {} else if i == 8 {} else if i == 9 {}
        else {}
    }
    assert forall|i: int| 0 <= i < 5 implies 'a' <= #[trigger] "elite"@[i] && "elite"@[i] <= 'z'
        && "ELITE"@[i] as int == "elite"@[i] as int - 32 by {
        if i == 0 {} else if i == 1 {} else if i == 2 {} else if i == 3 {} else {}
    }
}

/// The level read does not depend on case: a text and its lower-case form give the same
/// result, and a text whose lower-case form is `anonymous`, `transparent` or `elite` gives
/// that level.
pub proof fn lemma_anonymity_ignores_case(s: Seq<char>)
    ensures
        anonymity_named(s) == anonymity_named(lower_text(s)),
        lower_text(s) == "anonymous"@ ==> anonymity_named(s) == Ok::<ProxyAnonymity, ()>(ProxyAnonymity::Anonymous),
        lower_text(s) == "transparent"@ ==> anonymity_named(s) == Ok::<ProxyAnonymity, ()>(ProxyAnonymity::Transparent),
        lower_text(s) == "elite"@ ==> anonymity_named(s) == Ok::<ProxyAnonymity, ()>(ProxyAnonymity::Elite),
        (lower_text(s) != "anonymous"@ && lower_text(s) != "transparent"@ && lower_text(s) != "elite"@)
            ==> anonymity_named(s) == Err::<ProxyAnonymity, ()>(()),
{
    lemma_level_names();
    lemma_spells_is_lower(s, "anonymous"@, "ANONYMOUS"@);
    lemma_spells_is_lower(s, "transparent"@, "TRANSPARENT"@);
    lemma_spells_is_lower(s, "elite"@, "ELITE"@);
}

} // verus!
