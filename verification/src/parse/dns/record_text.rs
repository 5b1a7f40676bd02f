//! Decoded record data as text.

use crate::parse::dns::resource_record::{
    AAAARecord, ARecord, CNameRecord, MxRecord, NsRecord, OptRecord, PtrRecord, RRecordTypes,
    RecordData, SoaRecord, SrvRecord, TxtRecord,
};
use crate::parse::dns::text::{
    debug_text, decimal, decimal_text, join_texts, join_with, lower_hex, lower_hex_text,
    string_debug, texts,
};
use vstd::prelude::*;
use vstd::string::StringExecFns;

verus! {

/// An IPv4 address in dotted decimal.
pub open spec fn ipv4_text(address: u32) -> Seq<char> {
    decimal_text((address / 0x100_0000) as nat) + "."@ + decimal_text(
        (address / 0x1_0000 % 0x100) as nat,
    ) + "."@ + decimal_text((address / 0x100 % 0x100) as nat) + "."@ + decimal_text(
        (address % 0x100) as nat,
    )
}

/// The eight 16-bit groups of an IPv6 address, the first in the top bits.
pub open spec fn ipv6_groups(address: u128) -> Seq<u16> {
    seq![
        (address / 0x1_0000_0000_0000_0000_0000_0000_0000 % 0x1_0000) as u16,
        (address / 0x1_0000_0000_0000_0000_0000_0000 % 0x1_0000) as u16,
        (address / 0x1_0000_0000_0000_0000_0000 % 0x1_0000) as u16,
        (address / 0x1_0000_0000_0000_0000 % 0x1_0000) as u16,
        (address / 0x1_0000_0000_0000 % 0x1_0000) as u16,
        (address / 0x1_0000_0000 % 0x1_0000) as u16,
        (address / 0x1_0000 % 0x1_0000) as u16,
        (address % 0x1_0000) as u16,
    ]
}

/// How many groups from index `i` on are zero in a row.
pub open spec fn zero_run(groups: Seq<u16>, i: int) -> nat
    decreases groups.len() - i,
{
    if i < 0 || i >= groups.len() || groups[i] != 0 {
        0
    } else {
        1 + zero_run(groups, i + 1)
    }
}

/// The least index among `0..=n` at which the longest run of zero groups
/// starts.
pub open spec fn longest_zero_run(groups: Seq<u16>, n: int) -> int
    decreases n,
{
    if n <= 0 {
        0
    } else {
        let best = longest_zero_run(groups, n - 1);
        if zero_run(groups, n) > zero_run(groups, best) {
            n
        } else {
            best
        }
    }
}

/// The groups in hexadecimal.
pub open spec fn group_texts(groups: Seq<u16>) -> Seq<Seq<char>> {
    groups.map_values(|g: u16| lower_hex_text(g as nat))
}

/// True of an address that stands for an IPv4 address: its first five
/// groups are zero and its sixth is `ffff`.
pub open spec fn is_ipv4_mapped(address: u128) -> bool {
    address / 0x1_0000_0000 == 0xffff
}

/// An IPv6 address as text.
///
/// An address that stands for an IPv4 address is `::ffff:` and that address
/// in dotted decimal. Otherwise the groups are written in hexadecimal
/// without leading zeros, with colons between them, and the longest run of
/// two or more zero groups, the first of them if there are several, is
/// written as `::`.
pub open spec fn ipv6_text(address: u128) -> Seq<char> {
    let groups = ipv6_groups(address);
    if is_ipv4_mapped(address) {
        "::ffff:"@ + ipv4_text((address % 0x1_0000_0000) as u32)
    } else {
        let start = longest_zero_run(groups, 7);
        let len = zero_run(groups, start);
        if len > 1 {
            join_texts(group_texts(groups.take(start)), ":"@) + "::"@ + join_texts(
                group_texts(groups.skip(start + len)),
                ":"@,
            )
        } else {
            join_texts(group_texts(groups), ":"@)
        }
    }
}

/// Writes an IPv4 address in dotted decimal.
pub fn ipv4_to_text(address: u32) -> (r: String)
    ensures
        r@ == ipv4_text(address),
{
    let mut out = decimal((address / 0x100_0000) as u64);
    out.append(".");
    out.append(decimal((address / 0x1_0000 % 0x100) as u64).as_str());
    out.append(".");
    out.append(decimal((address / 0x100 % 0x100) as u64).as_str());
    out.append(".");
    out.append(decimal((address % 0x100) as u64).as_str());
    out
}

/// How many groups from index `i` on are zero in a row.
fn count_zero_run(groups: &Vec<u16>, i: usize) -> (r: usize)
    requires
        i <= groups.len(),
    ensures
        r == zero_run(groups@, i as int),
        i + r <= groups.len(),
{
    let mut k: usize = i;
    while k < groups.len() && groups[k] == 0
        invariant
            i <= k <= groups.len(),
            zero_run(groups@, i as int) == (k - i) + zero_run(groups@, k as int),
        decreases groups.len() - k,
    {
        k = k + 1;
    }
    k - i
}

/// Writes the groups from `from` up to `to` in hexadecimal, with colons
/// between them.
fn groups_to_text(groups: &Vec<u16>, from: usize, to: usize) -> (r: String)
    requires
        from <= to <= groups.len(),
    ensures
        r@ == join_texts(group_texts(groups@.subrange(from as int, to as int)), ":"@),
{
    let mut parts: Vec<String> = Vec::new();
    let mut k: usize = from;
    let ghost want = group_texts(groups@.subrange(from as int, to as int));
    while k < to
        invariant
            from <= k <= to <= groups.len(),
            want == group_texts(groups@.subrange(from as int, to as int)),
            parts@.len() == k - from,
            forall|j: int| 0 <= j < parts@.len() ==> (#[trigger] parts@[j])@ == want[j],
        decreases to - k,
    {
        parts.push(lower_hex(groups[k] as u64));
        k = k + 1;
    }
    assert(texts(parts@) =~= want);
    join_with(&parts, ":")
}

/// Writes an IPv6 address as text.
pub fn ipv6_to_text(address: u128) -> (r: String)
    ensures
        r@ == ipv6_text(address),
{
    if address / 0x1_0000_0000 == 0xffff {
        let mut out = String::from_str("::ffff:");
        out.append(ipv4_to_text((address % 0x1_0000_0000) as u32).as_str());
        return out;
    }
    let mut groups: Vec<u16> = Vec::new();
    groups.push((address / 0x1_0000_0000_0000_0000_0000_0000_0000 % 0x1_0000) as u16);
    groups.push((address / 0x1_0000_0000_0000_0000_0000_0000 % 0x1_0000) as u16);
    groups.push((address / 0x1_0000_0000_0000_0000_0000 % 0x1_0000) as u16);
    groups.push((address / 0x1_0000_0000_0000_0000 % 0x1_0000) as u16);
    groups.push((address / 0x1_0000_0000_0000 % 0x1_0000) as u16);
    groups.push((address / 0x1_0000_0000 % 0x1_0000) as u16);
    groups.push((address / 0x1_0000 % 0x1_0000) as u16);
    groups.push((address % 0x1_0000) as u16);
    assert(groups@ =~= ipv6_groups(address));
    let mut start: usize = 0;
    let mut len: usize = count_zero_run(&groups, 0);
    let mut k: usize = 1;
    while k < 8
        invariant
            1 <= k <= 8,
            groups@.len() == 8,
            start == longest_zero_run(groups@, k - 1),
            start < k,
            len == zero_run(groups@, start as int),
            start + len <= 8,
        decreases 8 - k,
    {
        let here = count_zero_run(&groups, k);
        if here > len {
            start = k;
            len = here;
        }
        k = k + 1;
    }
    if len > 1 {
        let mut out = groups_to_text(&groups, 0, start);
        out.append("::");
        out.append(groups_to_text(&groups, start + len, 8).as_str());
        assert(groups@.subrange(0, start as int) =~= groups@.take(start as int));
        assert(groups@.subrange(start + len, 8) =~= groups@.skip(start + len));
        out
    } else {
        assert(groups@.subrange(0, 8) =~= groups@);
        groups_to_text(&groups, 0, 8)
    }
}

impl RecordData {
    /// The data as text: names as they are, numbers in decimal, addresses
    /// in their usual notation, a TXT string quoted. An OPT record is
    /// written as the root name, data without a decoder as
    /// `ParserNotImpl`.
    pub open spec fn text(self) -> Seq<char> {
        match self {
            RecordData::MX(v) => v.exchange + "("@ + decimal_text(v.preference as nat) + ")"@,
            RecordData::A(v) => ipv4_text(v.address),
            RecordData::AAAA(v) => ipv6_text(v.address),
            RecordData::PTR(v) => v,
            RecordData::TXT(v) => debug_text(v.text),
            RecordData::CNAME(v) => v,
            RecordData::NS(v) => v,
            RecordData::SRV(v) => decimal_text(v.prio as nat) + "/"@ + decimal_text(
                v.weight as nat,
            ) + "/"@ + decimal_text(v.port as nat) + "/"@ + v.target,
            RecordData::SOA(v) => v.mname + "/"@ + decimal_text(v.serial as nat) + "/"@
                + decimal_text(v.refresh as nat) + "/"@ + decimal_text(v.retry as nat) + "/"@
                + decimal_text(v.expire as nat),
            RecordData::OPT(_) => "<ROOT>"@,
            RecordData::ParserNotImpl => "ParserNotImpl"@,
        }
    }
}

impl MxRecord {
    /// The exchange, and the preference in brackets.
    pub fn to_text(&self) -> (r: String)
        ensures
            r@ == RecordData::MX(self@).text(),
    {
        let mut out = self.exchange.clone();
        out.append("(");
        out.append(decimal(self.preference as u64).as_str());
        out.append(")");
        out
    }
}

impl ARecord {
    /// The address in dotted decimal.
    pub fn to_text(&self) -> (r: String)
        ensures
            r@ == ipv4_text(self.address),
    {
        ipv4_to_text(self.address)
    }
}

impl AAAARecord {
    /// The address as text.
    pub fn to_text(&self) -> (r: String)
        ensures
            r@ == ipv6_text(self.address),
    {
        ipv6_to_text(self.address)
    }
}

impl PtrRecord {
    /// The name.
    pub fn to_text(&self) -> (r: String)
        ensures
            r@ == self@,
    {
        self.name.clone()
    }
}

impl TxtRecord {
    /// The text, quoted.
    pub fn to_text(&self) -> (r: String)
        ensures
            r@ == debug_text(self.text@),
    {
        string_debug(self.text.as_str())
    }
}

impl CNameRecord {
    /// The name.
    pub fn to_text(&self) -> (r: String)
        ensures
            r@ == self@,
    {
        self.name.clone()
    }
}

impl NsRecord {
    /// The name.
    pub fn to_text(&self) -> (r: String)
        ensures
            r@ == self@,
    {
        self.name.clone()
    }
}

impl SrvRecord {
    /// Priority, weight, port and target, with slashes between them.
    pub fn to_text(&self) -> (r: String)
        ensures
            r@ == RecordData::SRV(self@).text(),
    {
        let mut out = decimal(self.prio as u64);
        out.append("/");
        out.append(decimal(self.weight as u64).as_str());
        out.append("/");
        out.append(decimal(self.port as u64).as_str());
        out.append("/");
        out.append(self.target.as_str());
        out
    }
}

impl SoaRecord {
    /// The primary server, serial, refresh, retry and expire, with slashes
    /// between them.
    pub fn to_text(&self) -> (r: String)
        ensures
            r@ == RecordData::SOA(self@).text(),
    {
        let mut out = self.mname.clone();
        out.append("/");
        out.append(decimal(self.serial as u64).as_str());
        out.append("/");
        out.append(decimal(self.refresh as u64).as_str());
        out.append("/");
        out.append(decimal(self.retry as u64).as_str());
        out.append("/");
        out.append(decimal(self.expire as u64).as_str());
        out
    }
}

impl OptRecord {
    /// The root name, which is the name of every OPT record.
    pub fn to_text(&self) -> (r: String)
        ensures
            r@ == "<ROOT>"@,
    {
        String::from_str("<ROOT>")
    }
}

impl RRecordTypes {
    /// The data as text.
    pub fn to_text(&self) -> (r: String)
        ensures
            r@ == self@.text(),
    {
        match self {
            RRecordTypes::MX(v) => v.to_text(),
            RRecordTypes::A(v) => v.to_text(),
            RRecordTypes::AAAA(v) => v.to_text(),
            RRecordTypes::PTR(v) => v.to_text(),
            RRecordTypes::TXT(v) => v.to_text(),
            RRecordTypes::CNAME(v) => v.to_text(),
            RRecordTypes::NS(v) => v.to_text(),
            RRecordTypes::SRV(v) => v.to_text(),
            RRecordTypes::SOA(v) => v.to_text(),
            RRecordTypes::OPT(v) => v.to_text(),
            RRecordTypes::ParserNotImpl => String::from_str("ParserNotImpl"),
        }
    }
}

} // verus!
