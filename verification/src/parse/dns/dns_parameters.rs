//! The header's flag word, and the type and class codes of queries and
//! records.

use crate::parse::dns::text::{decimal, decimal_text};
use crate::parse::dns::wire::{be_u16, spec_uint, DecodeError};
use vstd::prelude::*;
use vstd::string::StringExecFns;

verus! {

/// Whether a message asks or answers.
#[derive(Clone, Copy, Debug, PartialEq, Eq)]
pub enum Qr {
    Query,
    Response,
}

/// The kind of query.
#[derive(Clone, Copy, Debug, PartialEq, Eq)]
pub enum Opcode {
    Query,
    IQuery,
    Status,
    Reserved,
}

/// The response code. `Other` holds a code that has no name here.
#[derive(Clone, Copy, Debug, PartialEq, Eq)]
pub enum Rcode {
    NoError,
    FormErr,
    ServFail,
    NXDomain,
    NotImp,
    Refused,
    YXDomain,
    XrrSet,
    NotAuth,
    NotZone,
    Other(u8),
}

/// The header's flag word, field by field.
#[derive(Clone, Copy, Debug, PartialEq, Eq)]
pub struct Flags {
    pub qr: Qr,
    pub opcode: Opcode,
    pub aa: bool,
    pub tc: bool,
    pub rd: bool,
    pub ra: bool,
    pub rcode: Rcode,
}

impl Rcode {
    /// The response code for the number `code`.
    pub open spec fn spec_from_code(code: u8) -> Rcode {
        if code == 0 {
            Rcode::NoError
        } else if code == 1 {
            Rcode::FormErr
        } else if code == 2 {
            Rcode::ServFail
        } else if code == 3 {
            Rcode::NXDomain
        } else if code == 4 {
            Rcode::NotImp
        } else if code == 5 {
            Rcode::Refused
        } else if code == 6 {
            Rcode::YXDomain
        } else if code == 7 {
            Rcode::XrrSet
        } else if code == 8 {
            Rcode::NotAuth
        } else if code == 9 {
            Rcode::NotZone
        } else {
            Rcode::Other(code)
        }
    }

    /// The number of a response code.
    pub open spec fn spec_code(self) -> u8 {
        match self {
            Rcode::NoError => 0,
            Rcode::FormErr => 1,
            Rcode::ServFail => 2,
            Rcode::NXDomain => 3,
            Rcode::NotImp => 4,
            Rcode::Refused => 5,
            Rcode::YXDomain => 6,
            Rcode::XrrSet => 7,
            Rcode::NotAuth => 8,
            Rcode::NotZone => 9,
            Rcode::Other(code) => code,
        }
    }

    /// True of the response codes that come of a number: `Other` holds only
    /// a code that has no name.
    pub open spec fn wf(self) -> bool {
        self is Other ==> self->Other_0 >= 10
    }

    /// The response code for the number `code`.
    pub fn from_code(code: u8) -> (r: Rcode)
        ensures
            r == Rcode::spec_from_code(code),
    {
        match code {
            0 => Rcode::NoError,
            1 => Rcode::FormErr,
            2 => Rcode::ServFail,
            3 => Rcode::NXDomain,
            4 => Rcode::NotImp,
            5 => Rcode::Refused,
            6 => Rcode::YXDomain,
            7 => Rcode::XrrSet,
            8 => Rcode::NotAuth,
            9 => Rcode::NotZone,
            _ => Rcode::Other(code),
        }
    }

    /// The number of this response code.
    pub fn code(&self) -> (c: u8)
        ensures
            c == self.spec_code(),
    {
        match *self {
            Rcode::NoError => 0,
            Rcode::FormErr => 1,
            Rcode::ServFail => 2,
            Rcode::NXDomain => 3,
            Rcode::NotImp => 4,
            Rcode::Refused => 5,
            Rcode::YXDomain => 6,
            Rcode::XrrSet => 7,
            Rcode::NotAuth => 8,
            Rcode::NotZone => 9,
            Rcode::Other(code) => code,
        }
    }
}

impl Opcode {
    /// The kind of query for the four opcode bits.
    pub open spec fn spec_from_code(code: u16) -> Opcode {
        if code == 0 {
            Opcode::Query
        } else if code == 1 {
            Opcode::IQuery
        } else if code == 2 {
            Opcode::Status
        } else {
            Opcode::Reserved
        }
    }

    /// The opcode bits that stand for a kind of query; `Reserved` is written
    /// as the least of the reserved codes.
    pub open spec fn spec_code(self) -> u16 {
        match self {
            Opcode::Query => 0,
            Opcode::IQuery => 1,
            Opcode::Status => 2,
            Opcode::Reserved => 3,
        }
    }
}

impl Flags {
    /// True of the flags that come of a flag word: the response code is
    /// well formed and fits in four bits.
    pub open spec fn wf(self) -> bool {
        self.rcode.wf() && self.rcode.spec_code() <= 15
    }
}

/// The fields of the flag word `flags`: QR is bit 15, the opcode bits 11 to
/// 14, AA, TC, RD and RA bits 10 to 7, the response code bits 0 to 3.
pub open spec fn spec_flags(flags: u16) -> Flags {
    Flags {
        qr: if flags & 0x8000 == 0 {
            Qr::Query
        } else {
            Qr::Response
        },
        opcode: Opcode::spec_from_code((flags & 0x7800) >> 11),
        aa: flags & 0x400 == 0x400,
        tc: flags & 0x200 == 0x200,
        rd: flags & 0x100 == 0x100,
        ra: flags & 0x80 == 0x80,
        rcode: Rcode::spec_from_code((flags & 0xf) as u8),
    }
}

/// The flag word that stands for `flags`, with the bits that no field
/// covers clear.
pub open spec fn spec_flag_word(flags: Flags) -> u16 {
    (if flags.qr is Response { 0x8000u16 } else { 0u16 }) | (flags.opcode.spec_code() << 11) | (if flags.aa { 0x400u16 } else { 0u16 })
        | (if flags.tc { 0x200u16 } else { 0u16 }) | (if flags.rd { 0x100u16 } else { 0u16 }) | (if flags.ra { 0x80u16 } else { 0u16 })
        | (flags.rcode.spec_code() as u16)
}

/// Decodes a flag word. Every word has a decoding.
pub fn decode_flags(flags: u16) -> (r: Flags)
    ensures
        r == spec_flags(flags),
        r.wf(),
        r.rcode.spec_code() == flags & 0xf,
{
    let qr = match (flags & 0x8000) >> 15 {
        0 => Qr::Query,
        1 => Qr::Response,
        _ => Qr::Query,
    };
    assert(((flags & 0x8000) >> 15 == 0) <==> (flags & 0x8000 == 0)) by (bit_vector);
    assert((flags & 0x8000) >> 15 <= 1) by (bit_vector);
    let opcode = match (flags & 0x7800) >> 11 {
        0 => Opcode::Query,
        1 => Opcode::IQuery,
        2 => Opcode::Status,
        _ => Opcode::Reserved,
    };
    let aa = (flags & 0x400) == 0x400;
    let tc = (flags & 0x200) == 0x200;
    let rd = (flags & 0x100) == 0x100;
    let ra = (flags & 0x80) == 0x80;
    assert(flags & 0xf <= 15) by (bit_vector);
    let rcode = Rcode::from_code((flags & 0xf) as u8);
    Flags { qr, opcode, aa, tc, rd, ra, rcode }
}

/// Encodes flags as a flag word.
pub fn encode_flags(flags: &Flags) -> (r: u16)
    ensures
        r == spec_flag_word(*flags),
{
    let qr: u16 = match flags.qr {
        Qr::Query => 0,
        Qr::Response => 0x8000,
    };
    let opcode: u16 = match flags.opcode {
        Opcode::Query => 0,
        Opcode::IQuery => 1,
        Opcode::Status => 2,
        Opcode::Reserved => 3,
    };
    let aa: u16 = if flags.aa { 0x400 } else { 0 };
    let tc: u16 = if flags.tc { 0x200 } else { 0 };
    let rd: u16 = if flags.rd { 0x100 } else { 0 };
    let ra: u16 = if flags.ra { 0x80 } else { 0 };
    qr | (opcode << 11) | aa | tc | rd | ra | (flags.rcode.code() as u16)
}

/// A number and its response code stand for each other: the code of a
/// number has that number, and a well-formed code is the code of its number.
pub proof fn lemma_rcode_of_code(code: u8, rcode: Rcode)
    ensures
        Rcode::spec_from_code(code).spec_code() == code,
        Rcode::spec_from_code(code).wf(),
        rcode.wf() ==> Rcode::spec_from_code(rcode.spec_code()) == rcode,
{
}

/// Every flag word decodes, and the number of the decoded response code is
/// the low four bits of the word: the code is a named one, or `Other` with
/// that number.
pub proof fn lemma_rcode_round_trip(flags: u16)
    ensures
        spec_flags(flags).wf(),
        spec_flags(flags).rcode.spec_code() == flags & 0xf,
        spec_flags(flags).rcode == Rcode::spec_from_code((flags & 0xf) as u8),
        spec_flags(flags).rcode is Other ==> spec_flags(flags).rcode->Other_0 == flags & 0xf,
{
    assert(flags & 0xf <= 15) by (bit_vector);
}

/// Decoding the word that encodes well-formed flags gives the same flags.
pub proof fn lemma_flags_round_trip(flags: Flags)
    requires
        flags.wf(),
    ensures
        spec_flags(spec_flag_word(flags)) == flags,
{
    let q: u16 = if flags.qr is Response { 0x8000u16 } else { 0u16 };
    let o: u16 = flags.opcode.spec_code();
    let a: u16 = if flags.aa { 0x400u16 } else { 0u16 };
    let t: u16 = if flags.tc { 0x200u16 } else { 0u16 };
    let d: u16 = if flags.rd { 0x100u16 } else { 0u16 };
    let r: u16 = if flags.ra { 0x80u16 } else { 0u16 };
    let c: u16 = flags.rcode.spec_code() as u16;
    let w: u16 = q | (o << 11) | a | t | d | r | c;
    assert(w & 0x8000 == q && (w & 0x7800) >> 11 == o && w & 0x400 == a && w & 0x200 == t && w
        & 0x100 == d && w & 0x80 == r && w & 0xf == c) by (bit_vector)
        requires
            w == q | (o << 11) | a | t | d | r | c,
            q == 0 || q == 0x8000,
            o <= 3,
            a == 0 || a == 0x400,
            t == 0 || t == 0x200,
            d == 0 || d == 0x100,
            r == 0 || r == 0x80,
            c <= 15,
    ;
}

/// The flag word at the front of `i`, decoded.
pub open spec fn spec_parse_flags(i: Seq<u8>) -> Result<(Flags, int), DecodeError> {
    (match spec_uint(i, 2) {
        Ok((v, n)) => Ok((spec_flags(v as u16), n)),
        Err(e) => Err(e),
    })
}

/// Reads the flag word and decodes it.
pub fn parse_flags(i: &[u8]) -> (r: Result<(&[u8], Flags), DecodeError>)
    ensures
        (match spec_parse_flags(i@) {
            Ok((v, n)) => r is Ok && r->Ok_0.0@ == i@.skip(n) && r->Ok_0.1 == v,
            Err(e) => r is Err && r->Err_0 == e,
        }),
{
    match be_u16(i) {
        Ok((rest, flags)) => Ok((rest, decode_flags(flags))),
        Err(e) => Err(e),
    }
}

/// The type of a query or a record. `UnknownType` holds a code that has no
/// name here.
#[derive(Clone, Copy, Debug, PartialEq, Eq)]
pub enum DnsType {
    A,
    NS,
    CNAME,
    SOA,
    WKS,
    PTR,
    HINFO,
    MX,
    TXT,
    AXFR,
    ALL,
    AAAA,
    LOC,
    SPF,
    SRV,
    TKEY,
    TSIG,
    IXFR,
    URI,
    TA,
    DLV,
    OPT,
    NSEC,
    UnknownType(u16),
}

/// The type for the number `code`.
pub open spec fn spec_dnstype(code: u16) -> DnsType {
    if code == 1 {
        DnsType::A
    } else if code == 2 {
        DnsType::NS
    } else if code == 5 {
        DnsType::CNAME
    } else if code == 6 {
        DnsType::SOA
    } else if code == 11 {
        DnsType::WKS
    } else if code == 12 {
        DnsType::PTR
    } else if code == 13 {
        DnsType::HINFO
    } else if code == 15 {
        DnsType::MX
    } else if code == 16 {
        DnsType::TXT
    } else if code == 28 {
        DnsType::AAAA
    } else if code == 29 {
        DnsType::LOC
    } else if code == 33 {
        DnsType::SRV
    } else if code == 41 {
        DnsType::OPT
    } else if code == 47 {
        DnsType::NSEC
    } else if code == 99 {
        DnsType::SPF
    } else if code == 249 {
        DnsType::TKEY
    } else if code == 250 {
        DnsType::TSIG
    } else if code == 251 {
        DnsType::IXFR
    } else if code == 252 {
        DnsType::AXFR
    } else if code == 255 {
        DnsType::ALL
    } else if code == 256 {
        DnsType::URI
    } else if code == 32768 {
        DnsType::TA
    } else if code == 32769 {
        DnsType::DLV
    } else {
        DnsType::UnknownType(code)
    }
}

/// The type at the front of `i`.
pub open spec fn spec_parse_dnstype(i: Seq<u8>) -> Result<(DnsType, int), DecodeError> {
    match spec_uint(i, 2) {
        Ok((v, n)) => Ok((spec_dnstype(v as u16), n)),
        Err(e) => Err(e),
    }
}

/// Reads a type code.
pub fn parse_dnstype(i: &[u8]) -> (r: Result<(&[u8], DnsType), DecodeError>)
    ensures
        (match spec_parse_dnstype(i@) {
            Ok((v, n)) => r is Ok && r->Ok_0.0@ == i@.skip(n) && r->Ok_0.1 == v,
            Err(e) => r is Err && r->Err_0 == e,
        }),
{
    let (rest, qtype) = match be_u16(i) {
        Ok(v) => v,
        Err(e) => {
            return Err(e);
        },
    };
    let t = match qtype {
        1 => DnsType::A,
        2 => DnsType::NS,
        5 => DnsType::CNAME,
        6 => DnsType::SOA,
        11 => DnsType::WKS,
        12 => DnsType::PTR,
        13 => DnsType::HINFO,
        15 => DnsType::MX,
        16 => DnsType::TXT,
        28 => DnsType::AAAA,
        29 => DnsType::LOC,
        33 => DnsType::SRV,
        41 => DnsType::OPT,
        47 => DnsType::NSEC,
        99 => DnsType::SPF,
        249 => DnsType::TKEY,
        250 => DnsType::TSIG,
        251 => DnsType::IXFR,
        252 => DnsType::AXFR,
        255 => DnsType::ALL,
        256 => DnsType::URI,
        32768 => DnsType::TA,
        32769 => DnsType::DLV,
        _ => DnsType::UnknownType(qtype),
    };
    Ok((rest, t))
}

/// The class of a query or a record. `UnknownClass` holds a code that has no
/// name here, as it stood on the wire. `OtherUsage` marks the class field of
/// a record that puts the field to another use, and holds what the field
/// held.
#[derive(Clone, Copy, Debug, PartialEq, Eq)]
pub enum DnsClass {
    IN,
    CS,
    CH,
    HS,
    ALL,
    UnknownClass(u16),
    OtherUsage(u16),
}

/// The class for the number `code`. The top bit, which asks for a unicast
/// response, does not count towards the class.
pub open spec fn spec_dnsclass(code: u16) -> DnsClass {
    let class = code & 32767;
    if class == 1 {
        DnsClass::IN
    } else if class == 2 {
        DnsClass::CS
    } else if class == 3 {
        DnsClass::CH
    } else if class == 4 {
        DnsClass::HS
    } else if class == 255 {
        DnsClass::ALL
    } else {
        DnsClass::UnknownClass(code)
    }
}

/// The class at the front of `i`.
pub open spec fn spec_parse_dnsclass(i: Seq<u8>) -> Result<(DnsClass, int), DecodeError> {
    match spec_uint(i, 2) {
        Ok((v, n)) => Ok((spec_dnsclass(v as u16), n)),
        Err(e) => Err(e),
    }
}

/// The class for the number `code`.
pub fn dnsclass_of(code: u16) -> (r: DnsClass)
    ensures
        r == spec_dnsclass(code),
{
    match code & 32767 {
        1 => DnsClass::IN,
        2 => DnsClass::CS,
        3 => DnsClass::CH,
        4 => DnsClass::HS,
        255 => DnsClass::ALL,
        _ => DnsClass::UnknownClass(code),
    }
}

/// Reads a class code.
pub fn parse_dnsclass(i: &[u8]) -> (r: Result<(&[u8], DnsClass), DecodeError>)
    ensures
        (match spec_parse_dnsclass(i@) {
            Ok((v, n)) => r is Ok && r->Ok_0.0@ == i@.skip(n) && r->Ok_0.1 == v,
            Err(e) => r is Err && r->Err_0 == e,
        }),
{
    match be_u16(i) {
        Ok((rest, qclass)) => Ok((rest, dnsclass_of(qclass))),
        Err(e) => Err(e),
    }
}

impl Qr {
    /// The name of the variant.
    pub open spec fn spec_name(self) -> Seq<char> {
        match self {
            Qr::Query => "Query"@,
            Qr::Response => "Response"@,
        }
    }

    /// The name of the variant.
    pub fn name(&self) -> (r: String)
        ensures
            r@ == self.spec_name(),
    {
        match *self {
            Qr::Query => String::from_str("Query"),
            Qr::Response => String::from_str("Response"),
        }
    }
}

impl Opcode {
    /// The name of the variant.
    pub open spec fn spec_name(self) -> Seq<char> {
        match self {
            Opcode::Query => "Query"@,
            Opcode::IQuery => "IQuery"@,
            Opcode::Status => "Status"@,
            Opcode::Reserved => "Reserved"@,
        }
    }

    /// The name of the variant.
    pub fn name(&self) -> (r: String)
        ensures
            r@ == self.spec_name(),
    {
        match *self {
            Opcode::Query => String::from_str("Query"),
            Opcode::IQuery => String::from_str("IQuery"),
            Opcode::Status => String::from_str("Status"),
            Opcode::Reserved => String::from_str("Reserved"),
        }
    }
}

impl Rcode {
    /// The name of the variant, with the code in brackets behind `Other`.
    pub open spec fn spec_name(self) -> Seq<char> {
        match self {
            Rcode::NoError => "NoError"@,
            Rcode::FormErr => "FormErr"@,
            Rcode::ServFail => "ServFail"@,
            Rcode::NXDomain => "NXDomain"@,
            Rcode::NotImp => "NotImp"@,
            Rcode::Refused => "Refused"@,
            Rcode::YXDomain => "YXDomain"@,
            Rcode::XrrSet => "XrrSet"@,
            Rcode::NotAuth => "NotAuth"@,
            Rcode::NotZone => "NotZone"@,
            Rcode::Other(code) => "Other("@ + decimal_text(code as nat) + ")"@,
        }
    }

    /// The name of the variant, with the code in brackets behind `Other`.
    pub fn name(&self) -> (r: String)
        ensures
            r@ == self.spec_name(),
    {
        match *self {
            Rcode::NoError => String::from_str("NoError"),
            Rcode::FormErr => String::from_str("FormErr"),
            Rcode::ServFail => String::from_str("ServFail"),
            Rcode::NXDomain => String::from_str("NXDomain"),
            Rcode::NotImp => String::from_str("NotImp"),
            Rcode::Refused => String::from_str("Refused"),
            Rcode::YXDomain => String::from_str("YXDomain"),
            Rcode::XrrSet => String::from_str("XrrSet"),
            Rcode::NotAuth => String::from_str("NotAuth"),
            Rcode::NotZone => String::from_str("NotZone"),
            Rcode::Other(code) => {
                let mut out = String::from_str("Other(");
                out.append(decimal(code as u64).as_str());
                out.append(")");
                out
            },
        }
    }
}

impl DnsType {
    /// The name of the variant, with the code in brackets behind `UnknownType`.
    pub open spec fn spec_name(self) -> Seq<char> {
        match self {
            DnsType::A => "A"@,
            DnsType::NS => "NS"@,
            DnsType::CNAME => "CNAME"@,
            DnsType::SOA => "SOA"@,
            DnsType::WKS => "WKS"@,
            DnsType::PTR => "PTR"@,
            DnsType::HINFO => "HINFO"@,
            DnsType::MX => "MX"@,
            DnsType::TXT => "TXT"@,
            DnsType::AXFR => "AXFR"@,
            DnsType::ALL => "ALL"@,
            DnsType::AAAA => "AAAA"@,
            DnsType::LOC => "LOC"@,
            DnsType::SPF => "SPF"@,
            DnsType::SRV => "SRV"@,
            DnsType::TKEY => "TKEY"@,
            DnsType::TSIG => "TSIG"@,
            DnsType::IXFR => "IXFR"@,
            DnsType::URI => "URI"@,
            DnsType::TA => "TA"@,
            DnsType::DLV => "DLV"@,
            DnsType::OPT => "OPT"@,
            DnsType::NSEC => "NSEC"@,
            DnsType::UnknownType(code) => "UnknownType("@ + decimal_text(code as nat) + ")"@,
        }
    }

    /// The name of the variant, with the code in brackets behind `UnknownType`.
    pub fn name(&self) -> (r: String)
        ensures
            r@ == self.spec_name(),
    {
        match *self {
            DnsType::A => String::from_str("A"),
            DnsType::NS => String::from_str("NS"),
            DnsType::CNAME => String::from_str("CNAME"),
            DnsType::SOA => String::from_str("SOA"),
            DnsType::WKS => String::from_str("WKS"),
            DnsType::PTR => String::from_str("PTR"),
            DnsType::HINFO => String::from_str("HINFO"),
            DnsType::MX => String::from_str("MX"),
            DnsType::TXT => String::from_str("TXT"),
            DnsType::AXFR => String::from_str("AXFR"),
            DnsType::ALL => String::from_str("ALL"),
            DnsType::AAAA => String::from_str("AAAA"),
            DnsType::LOC => String::from_str("LOC"),
            DnsType::SPF => String::from_str("SPF"),
            DnsType::SRV => String::from_str("SRV"),
            DnsType::TKEY => String::from_str("TKEY"),
            DnsType::TSIG => String::from_str("TSIG"),
            DnsType::IXFR => String::from_str("IXFR"),
            DnsType::URI => String::from_str("URI"),
            DnsType::TA => String::from_str("TA"),
            DnsType::DLV => String::from_str("DLV"),
            DnsType::OPT => String::from_str("OPT"),
            DnsType::NSEC => String::from_str("NSEC"),
            DnsType::UnknownType(code) => {
                let mut out = String::from_str("UnknownType(");
                out.append(decimal(code as u64).as_str());
                out.append(")");
                out
            },
        }
    }
}

impl DnsClass {
    /// The name of the variant, with the code in brackets behind `UnknownClass` and `OtherUsage`.
    pub open spec fn spec_name(self) -> Seq<char> {
        match self {
            DnsClass::IN => "IN"@,
            DnsClass::CS => "CS"@,
            DnsClass::CH => "CH"@,
            DnsClass::HS => "HS"@,
            DnsClass::ALL => "ALL"@,
            DnsClass::UnknownClass(code) => "UnknownClass("@ + decimal_text(code as nat) + ")"@,
            DnsClass::OtherUsage(code) => "OtherUsage("@ + decimal_text(code as nat) + ")"@,
        }
    }

    /// The name of the variant, with the code in brackets behind `UnknownClass` and `OtherUsage`.
    pub fn name(&self) -> (r: String)
        ensures
            r@ == self.spec_name(),
    {
        match *self {
            DnsClass::IN => String::from_str("IN"),
            DnsClass::CS => String::from_str("CS"),
            DnsClass::CH => String::from_str("CH"),
            DnsClass::HS => String::from_str("HS"),
            DnsClass::ALL => String::from_str("ALL"),
            DnsClass::UnknownClass(code) => {
                let mut out = String::from_str("UnknownClass(");
                out.append(decimal(code as u64).as_str());
                out.append(")");
                out
            },
            DnsClass::OtherUsage(code) => {
                let mut out = String::from_str("OtherUsage(");
                out.append(decimal(code as u64).as_str());
                out.append(")");
                out
            },
        }
    }
}

} // verus!
