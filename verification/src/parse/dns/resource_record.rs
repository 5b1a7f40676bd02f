//! Resource records and the decoders of their data, one for each type that
//! is understood.

use crate::parse::dns::compressed_name::{
    lemma_chain_within, parse_compressed_chain, spec_chain, spec_resolve, spec_resolved,
    CompressedNameChain, NameChain,
};
use crate::parse::dns::dns_parameters::{
    dnsclass_of, parse_dnstype, spec_dnsclass, spec_parse_dnstype, DnsClass, DnsType,
};
use crate::parse::dns::name_proofs::{leads_to_text, lemma_resolved_chain_not_empty};
use crate::parse::dns::text::{
    hex_encode, hex_text, lossy_text, string_from_utf8_lossy, text_or_empty,
};
use crate::parse::dns::wire::{
    be_u128, be_u16, be_u32, be_u8, lemma_uint_fits, spec_take, spec_uint, take, DecodeError,
};
use vstd::prelude::*;
use vstd::slice::slice_to_vec;
use vstd::utf8::{decode_utf8, valid_utf8};
use vstd::string::StringExecFns;

verus! {

/// The data of an MX record: a preference and the host that takes the mail.
#[derive(Clone, Debug, PartialEq)]
pub struct MxRecord {
    pub preference: u16,
    pub exchange: String,
}

/// The data of an A record: an IPv4 address as a 32-bit number, the first
/// octet in the top byte.
#[derive(Clone, Copy, Debug, PartialEq, Eq)]
pub struct ARecord {
    pub address: u32,
}

/// The data of an AAAA record: an IPv6 address as a 128-bit number, the
/// first octet in the top byte.
#[derive(Clone, Copy, Debug, PartialEq, Eq)]
pub struct AAAARecord {
    pub address: u128,
}

/// The data of a PTR record: a name.
#[derive(Clone, Debug, PartialEq)]
pub struct PtrRecord {
    pub name: String,
}

/// The data of a TXT record: one length-prefixed string, as bytes and as
/// text.
#[derive(Clone, Debug, PartialEq)]
pub struct TxtRecord {
    pub len: u8,
    pub bytes: Vec<u8>,
    pub text: String,
}

/// The data of a CNAME record: a name.
#[derive(Clone, Debug, PartialEq)]
pub struct CNameRecord {
    pub name: String,
}

/// The data of an NS record: a name.
#[derive(Clone, Debug, PartialEq)]
pub struct NsRecord {
    pub name: String,
}

/// The data of an SRV record.
#[derive(Clone, Debug, PartialEq)]
pub struct SrvRecord {
    pub prio: u16,
    pub weight: u16,
    pub port: u16,
    pub target: String,
}

/// The data of an SOA record.
#[derive(Clone, Debug, PartialEq)]
pub struct SoaRecord {
    pub mname: String,
    pub rname: String,
    pub serial: u32,
    pub refresh: u32,
    pub retry: u32,
    pub expire: u32,
}

/// An MX record's data as a mathematical value.
pub struct MxData {
    pub preference: u16,
    pub exchange: Seq<char>,
}

/// A TXT record's data as a mathematical value.
pub struct TxtData {
    pub len: u8,
    pub bytes: Seq<u8>,
    pub text: Seq<char>,
}

/// An SRV record's data as a mathematical value.
pub struct SrvData {
    pub prio: u16,
    pub weight: u16,
    pub port: u16,
    pub target: Seq<char>,
}

/// An SOA record's data as a mathematical value.
pub struct SoaData {
    pub mname: Seq<char>,
    pub rname: Seq<char>,
    pub serial: u32,
    pub refresh: u32,
    pub retry: u32,
    pub expire: u32,
}

impl View for MxRecord {
    type V = MxData;

    open spec fn view(&self) -> MxData {
        MxData { preference: self.preference, exchange: self.exchange@ }
    }
}

impl View for PtrRecord {
    type V = Seq<char>;

    open spec fn view(&self) -> Seq<char> {
        self.name@
    }
}

impl View for CNameRecord {
    type V = Seq<char>;

    open spec fn view(&self) -> Seq<char> {
        self.name@
    }
}

impl View for NsRecord {
    type V = Seq<char>;

    open spec fn view(&self) -> Seq<char> {
        self.name@
    }
}

impl View for TxtRecord {
    type V = TxtData;

    open spec fn view(&self) -> TxtData {
        TxtData { len: self.len, bytes: self.bytes@, text: self.text@ }
    }
}

impl View for SrvRecord {
    type V = SrvData;

    open spec fn view(&self) -> SrvData {
        SrvData { prio: self.prio, weight: self.weight, port: self.port, target: self.target@ }
    }
}

impl View for SoaRecord {
    type V = SoaData;

    open spec fn view(&self) -> SoaData {
        SoaData {
            mname: self.mname@,
            rname: self.rname@,
            serial: self.serial,
            refresh: self.refresh,
            retry: self.retry,
            expire: self.expire,
        }
    }
}

/// The text of a chain resolved from outside against `msg`, empty where it
/// has none.
pub open spec fn spec_name_text(chain: NameChain, msg: Seq<u8>) -> Seq<char> {
    text_or_empty(spec_resolve(chain, 0, msg))
}

/// Resolves a chain from outside and gives its text, empty where it has
/// none.
fn name_text(chain: &mut CompressedNameChain, full_dns_message: &[u8]) -> (r: String)
    ensures
        r@ == spec_name_text(old(chain)@, full_dns_message@),
        final(chain)@ == spec_resolved(old(chain)@, 0, full_dns_message@),
{
    match chain.resolve_name(0, full_dns_message) {
        Some(n) => n.clone(),
        None => String::new(),
    }
}

/// An MX record's data as it stands on the wire: a 16-bit preference, then
/// a name.
pub open spec fn spec_mx_rdata(i: Seq<u8>) -> Result<((u16, NameChain), int), DecodeError> {
    match spec_uint(i, 2) {
        Err(e) => Err(e),
        Ok((preference, n1)) => match spec_chain(i.skip(n1)) {
            Err(e) => Err(e),
            Ok((chain, n2)) => Ok(((preference as u16, chain), n1 + n2)),
        },
    }
}

/// An MX record's data, its name resolved against `msg`.
pub open spec fn spec_mx(rdata: Seq<u8>, msg: Seq<u8>) -> Result<MxData, DecodeError> {
    match spec_mx_rdata(rdata) {
        Err(e) => Err(e),
        Ok(((preference, chain), _)) => Ok(
            MxData { preference, exchange: spec_name_text(chain, msg) },
        ),
    }
}

/// An address record's data as it stands on the wire: a number of `width`
/// bytes.
pub open spec fn spec_address_rdata(i: Seq<u8>, width: nat) -> Result<(nat, int), DecodeError> {
    spec_uint(i, width)
}

/// The one name that the data of a PTR, a CNAME or an NS record holds.
pub open spec fn spec_name_rdata(i: Seq<u8>) -> Result<(NameChain, int), DecodeError> {
    spec_chain(i)
}

/// The name of a PTR, a CNAME or an NS record, resolved against `msg`.
pub open spec fn spec_name_record(rdata: Seq<u8>, msg: Seq<u8>) -> Result<Seq<char>, DecodeError> {
    match spec_name_rdata(rdata) {
        Err(e) => Err(e),
        Ok((chain, _)) => Ok(spec_name_text(chain, msg)),
    }
}

/// A TXT record's string as it stands on the wire: a length byte, then that
/// many bytes.
pub open spec fn spec_txt_rdata(i: Seq<u8>) -> Result<((u8, Seq<u8>), int), DecodeError> {
    match spec_uint(i, 1) {
        Err(e) => Err(e),
        Ok((len, n1)) => match spec_take(i.skip(n1), len) {
            Err(e) => Err(e),
            Ok((bytes, n2)) => Ok(((len as u8, bytes), n1 + n2)),
        },
    }
}

/// A TXT record's data. The string must fill the data: a length byte that
/// asks for more than there is, or for less, is an error. The text is that
/// which the bytes encode where they are UTF-8, and their lossy conversion
/// where they are not.
pub open spec fn spec_txt(rdata: Seq<u8>) -> Result<TxtData, DecodeError> {
    match spec_txt_rdata(rdata) {
        Err(e) => Err(e),
        Ok(((len, bytes), n)) => if n < rdata.len() {
            Err(DecodeError::TrailingData)
        } else {
            Ok(TxtData { len, bytes, text: lossy_text(bytes) })
        },
    }
}

/// An SRV record's data as it stands on the wire: priority, weight and
/// port, 16 bits each, then a name.
pub open spec fn spec_srv_rdata(i: Seq<u8>) -> Result<((u16, u16, u16, NameChain), int), DecodeError> {
    match spec_uint(i, 2) {
        Err(e) => Err(e),
        Ok((prio, n1)) => match spec_uint(i.skip(n1), 2) {
            Err(e) => Err(e),
            Ok((weight, n2)) => match spec_uint(i.skip(n1 + n2), 2) {
                Err(e) => Err(e),
                Ok((port, n3)) => match spec_chain(i.skip(n1 + n2 + n3)) {
                    Err(e) => Err(e),
                    Ok((chain, n4)) => Ok(
                        ((prio as u16, weight as u16, port as u16, chain), n1 + n2 + n3 + n4),
                    ),
                },
            },
        },
    }
}

/// An SRV record's data, its name resolved against `msg`.
pub open spec fn spec_srv(rdata: Seq<u8>, msg: Seq<u8>) -> Result<SrvData, DecodeError> {
    match spec_srv_rdata(rdata) {
        Err(e) => Err(e),
        Ok(((prio, weight, port, chain), _)) => Ok(
            SrvData { prio, weight, port, target: spec_name_text(chain, msg) },
        ),
    }
}

/// Four 32-bit numbers in a row.
pub open spec fn spec_four_u32(i: Seq<u8>) -> Result<((u32, u32, u32, u32), int), DecodeError> {
    match spec_uint(i, 4) {
        Err(e) => Err(e),
        Ok((a, n1)) => match spec_uint(i.skip(n1), 4) {
            Err(e) => Err(e),
            Ok((b, n2)) => match spec_uint(i.skip(n1 + n2), 4) {
                Err(e) => Err(e),
                Ok((c, n3)) => match spec_uint(i.skip(n1 + n2 + n3), 4) {
                    Err(e) => Err(e),
                    Ok((d, n4)) => Ok(
                        ((a as u32, b as u32, c as u32, d as u32), n1 + n2 + n3 + n4),
                    ),
                },
            },
        },
    }
}

/// An SOA record's data as it stands on the wire: two names, then serial,
/// refresh, retry and expire, 32 bits each.
pub open spec fn spec_soa_rdata(i: Seq<u8>) -> Result<
    ((NameChain, NameChain, u32, u32, u32, u32), int),
    DecodeError,
> {
    match spec_chain(i) {
        Err(e) => Err(e),
        Ok((mname, n1)) => match spec_chain(i.skip(n1)) {
            Err(e) => Err(e),
            Ok((rname, n2)) => match spec_four_u32(i.skip(n1 + n2)) {
                Err(e) => Err(e),
                Ok(((serial, refresh, retry, expire), n3)) => Ok(
                    ((mname, rname, serial, refresh, retry, expire), n1 + n2 + n3),
                ),
            },
        },
    }
}

/// An SOA record's data, its names resolved against `msg`.
pub open spec fn spec_soa(rdata: Seq<u8>, msg: Seq<u8>) -> Result<SoaData, DecodeError> {
    match spec_soa_rdata(rdata) {
        Err(e) => Err(e),
        Ok(((mname, rname, serial, refresh, retry, expire), _)) => Ok(
            SoaData {
                mname: spec_name_text(mname, msg),
                rname: spec_name_text(rname, msg),
                serial,
                refresh,
                retry,
                expire,
            },
        ),
    }
}

impl MxRecord {
    /// Reads the preference and the name.
    pub fn parse_rdata<'a>(i: &'a [u8]) -> (r: Result<
        (&'a [u8], (u16, CompressedNameChain<'a>)),
        DecodeError,
    >)
        ensures
            (match spec_mx_rdata(i@) {
                Ok((v, n)) => r is Ok && r->Ok_0.0@ == i@.skip(n) && r->Ok_0.1.0 == v.0
                    && r->Ok_0.1.1@ == v.1,
                Err(e) => r is Err && r->Err_0 == e,
            }),
    {
        let (rest1, preference) = match be_u16(i) {
            Ok(v) => v,
            Err(e) => {
                return Err(e);
            },
        };
        let (rest2, name_chain) = match parse_compressed_chain(rest1) {
            Ok(v) => v,
            Err(e) => {
                return Err(e);
            },
        };
        proof {
            lemma_chain_within(rest1@);
            assert(rest2@ =~= i@.skip(2 + spec_chain(rest1@)->Ok_0.1));
        }
        Ok((rest2, (preference, name_chain)))
    }

    /// Decodes the record's data, resolving the name against the message.
    pub fn new(rr: &ResourceRecord, full_dns_message: &[u8]) -> (r: Result<MxRecord, DecodeError>)
        ensures
            (match spec_mx(rr.rdata@, full_dns_message@) {
                Ok(v) => r is Ok && r->Ok_0@ == v,
                Err(e) => r is Err && r->Err_0 == e,
            }),
    {
        let (_, (preference, mut name_chain)) = match Self::parse_rdata(rr.rdata) {
            Ok(v) => v,
            Err(e) => {
                return Err(e);
            },
        };
        let exchange = name_text(&mut name_chain, full_dns_message);
        Ok(MxRecord { preference, exchange })
    }
}

impl ARecord {
    /// Reads the address.
    pub fn parse_rdata(i: &[u8]) -> (r: Result<(&[u8], u32), DecodeError>)
        ensures
            (match spec_address_rdata(i@, 4) {
                Ok((v, n)) => r is Ok && r->Ok_0.0@ == i@.skip(n) && r->Ok_0.1 == v,
                Err(e) => r is Err && r->Err_0 == e,
            }),
    {
        be_u32(i)
    }

    /// Decodes the record's data.
    pub fn new(rr: &ResourceRecord) -> (r: Result<ARecord, DecodeError>)
        ensures
            (match spec_address_rdata(rr.rdata@, 4) {
                Ok((v, _)) => r is Ok && r->Ok_0.address == v,
                Err(e) => r is Err && r->Err_0 == e,
            }),
    {
        match Self::parse_rdata(rr.rdata) {
            Ok((_, address)) => Ok(ARecord { address }),
            Err(e) => Err(e),
        }
    }
}

impl AAAARecord {
    /// Reads the address.
    pub fn parse_rdata(i: &[u8]) -> (r: Result<(&[u8], u128), DecodeError>)
        ensures
            (match spec_address_rdata(i@, 16) {
                Ok((v, n)) => r is Ok && r->Ok_0.0@ == i@.skip(n) && r->Ok_0.1 == v,
                Err(e) => r is Err && r->Err_0 == e,
            }),
    {
        be_u128(i)
    }

    /// Decodes the record's data.
    pub fn new(rr: &ResourceRecord) -> (r: Result<AAAARecord, DecodeError>)
        ensures
            (match spec_address_rdata(rr.rdata@, 16) {
                Ok((v, _)) => r is Ok && r->Ok_0.address == v,
                Err(e) => r is Err && r->Err_0 == e,
            }),
    {
        match Self::parse_rdata(rr.rdata) {
            Ok((_, address)) => Ok(AAAARecord { address }),
            Err(e) => Err(e),
        }
    }
}

impl PtrRecord {
    /// Reads the name.
    pub fn parse_rdata<'a>(i: &'a [u8]) -> (r: Result<
        (&'a [u8], CompressedNameChain<'a>),
        DecodeError,
    >)
        ensures
            (match spec_name_rdata(i@) {
                Ok((v, n)) => r is Ok && r->Ok_0.0@ == i@.skip(n) && r->Ok_0.1@ == v,
                Err(e) => r is Err && r->Err_0 == e,
            }),
    {
        parse_compressed_chain(i)
    }

    /// Decodes the record's data, resolving the name against the message.
    pub fn new(rr: &ResourceRecord, full_dns_message: &[u8]) -> (r: Result<PtrRecord, DecodeError>)
        ensures
            (match spec_name_record(rr.rdata@, full_dns_message@) {
                Ok(v) => r is Ok && r->Ok_0@ == v,
                Err(e) => r is Err && r->Err_0 == e,
            }),
    {
        let (_, mut name_chain) = match Self::parse_rdata(rr.rdata) {
            Ok(v) => v,
            Err(e) => {
                return Err(e);
            },
        };
        let name = name_text(&mut name_chain, full_dns_message);
        Ok(PtrRecord { name })
    }
}

impl TxtRecord {
    /// Reads the length byte and the string.
    pub fn parse_rdata<'a>(i: &'a [u8]) -> (r: Result<(&'a [u8], (u8, &'a [u8])), DecodeError>)
        ensures
            (match spec_txt_rdata(i@) {
                Ok((v, n)) => r is Ok && r->Ok_0.0@ == i@.skip(n) && r->Ok_0.1.0 == v.0
                    && r->Ok_0.1.1@ == v.1,
                Err(e) => r is Err && r->Err_0 == e,
            }),
    {
        let (rest1, len) = match be_u8(i) {
            Ok(v) => v,
            Err(e) => {
                return Err(e);
            },
        };
        let (rest2, bytes) = match take(rest1, len as usize) {
            Ok(v) => v,
            Err(e) => {
                return Err(e);
            },
        };
        assert(rest2@ =~= i@.skip(1 + len));
        Ok((rest2, (len, bytes)))
    }

    /// Decodes the record's data.
    pub fn new(rr: &ResourceRecord) -> (r: Result<TxtRecord, DecodeError>)
        ensures
            (match spec_txt(rr.rdata@) {
                Ok(v) => r is Ok && r->Ok_0@ == v,
                Err(e) => r is Err && r->Err_0 == e,
            }),
    {
        let (rest, (len, bytes)) = match Self::parse_rdata(rr.rdata) {
            Ok(v) => v,
            Err(e) => {
                return Err(e);
            },
        };
        if rest.len() > 0 {
            return Err(DecodeError::TrailingData);
        }
        Ok(TxtRecord { len, bytes: slice_to_vec(bytes), text: string_from_utf8_lossy(bytes) })
    }
}

impl CNameRecord {
    /// Reads the name.
    pub fn parse_rdata<'a>(i: &'a [u8]) -> (r: Result<
        (&'a [u8], CompressedNameChain<'a>),
        DecodeError,
    >)
        ensures
            (match spec_name_rdata(i@) {
                Ok((v, n)) => r is Ok && r->Ok_0.0@ == i@.skip(n) && r->Ok_0.1@ == v,
                Err(e) => r is Err && r->Err_0 == e,
            }),
    {
        parse_compressed_chain(i)
    }

    /// Decodes the record's data, resolving the name against the message.
    pub fn new(rr: &ResourceRecord, full_dns_message: &[u8]) -> (r: Result<
        CNameRecord,
        DecodeError,
    >)
        ensures
            (match spec_name_record(rr.rdata@, full_dns_message@) {
                Ok(v) => r is Ok && r->Ok_0@ == v,
                Err(e) => r is Err && r->Err_0 == e,
            }),
    {
        let (_, mut name_chain) = match Self::parse_rdata(rr.rdata) {
            Ok(v) => v,
            Err(e) => {
                return Err(e);
            },
        };
        let name = name_text(&mut name_chain, full_dns_message);
        Ok(CNameRecord { name })
    }
}

impl NsRecord {
    /// Reads the name.
    pub fn parse_rdata<'a>(i: &'a [u8]) -> (r: Result<
        (&'a [u8], CompressedNameChain<'a>),
        DecodeError,
    >)
        ensures
            (match spec_name_rdata(i@) {
                Ok((v, n)) => r is Ok && r->Ok_0.0@ == i@.skip(n) && r->Ok_0.1@ == v,
                Err(e) => r is Err && r->Err_0 == e,
            }),
    {
        parse_compressed_chain(i)
    }

    /// Decodes the record's data, resolving the name against the message.
    pub fn new(rr: &ResourceRecord, full_dns_message: &[u8]) -> (r: Result<NsRecord, DecodeError>)
        ensures
            (match spec_name_record(rr.rdata@, full_dns_message@) {
                Ok(v) => r is Ok && r->Ok_0@ == v,
                Err(e) => r is Err && r->Err_0 == e,
            }),
    {
        let (_, mut name_chain) = match Self::parse_rdata(rr.rdata) {
            Ok(v) => v,
            Err(e) => {
                return Err(e);
            },
        };
        let name = name_text(&mut name_chain, full_dns_message);
        Ok(NsRecord { name })
    }
}

impl SrvRecord {
    /// Reads priority, weight, port and the name.
    pub fn parse_rdata<'a>(i: &'a [u8]) -> (r: Result<
        (&'a [u8], (u16, u16, u16, CompressedNameChain<'a>)),
        DecodeError,
    >)
        ensures
            (match spec_srv_rdata(i@) {
                Ok((v, n)) => r is Ok && r->Ok_0.0@ == i@.skip(n) && r->Ok_0.1.0 == v.0
                    && r->Ok_0.1.1 == v.1 && r->Ok_0.1.2 == v.2 && r->Ok_0.1.3@ == v.3,
                Err(e) => r is Err && r->Err_0 == e,
            }),
    {
        let (rest1, prio) = match be_u16(i) {
            Ok(v) => v,
            Err(e) => {
                return Err(e);
            },
        };
        let (rest2, weight) = match be_u16(rest1) {
            Ok(v) => v,
            Err(e) => {
                return Err(e);
            },
        };
        assert(rest2@ =~= i@.skip(4));
        let (rest3, port) = match be_u16(rest2) {
            Ok(v) => v,
            Err(e) => {
                return Err(e);
            },
        };
        assert(rest3@ =~= i@.skip(6));
        let (rest4, target_chain) = match parse_compressed_chain(rest3) {
            Ok(v) => v,
            Err(e) => {
                return Err(e);
            },
        };
        proof {
            lemma_chain_within(rest3@);
            assert(rest4@ =~= i@.skip(6 + spec_chain(rest3@)->Ok_0.1));
        }
        Ok((rest4, (prio, weight, port, target_chain)))
    }

    /// Decodes the record's data, resolving the name against the message.
    pub fn new(rr: &ResourceRecord, full_dns_message: &[u8]) -> (r: Result<SrvRecord, DecodeError>)
        ensures
            (match spec_srv(rr.rdata@, full_dns_message@) {
                Ok(v) => r is Ok && r->Ok_0@ == v,
                Err(e) => r is Err && r->Err_0 == e,
            }),
    {
        let (_, (prio, weight, port, mut target_chain)) = match Self::parse_rdata(rr.rdata) {
            Ok(v) => v,
            Err(e) => {
                return Err(e);
            },
        };
        let target = name_text(&mut target_chain, full_dns_message);
        Ok(SrvRecord { prio, weight, port, target })
    }
}

/// Reads four 32-bit numbers.
fn four_u32(i: &[u8]) -> (r: Result<(&[u8], (u32, u32, u32, u32)), DecodeError>)
    ensures
        (match spec_four_u32(i@) {
            Ok((v, n)) => r is Ok && r->Ok_0.0@ == i@.skip(n) && r->Ok_0.1 == v,
            Err(e) => r is Err && r->Err_0 == e,
        }),
{
    let (rest1, a) = match be_u32(i) {
        Ok(v) => v,
        Err(e) => {
            return Err(e);
        },
    };
    let (rest2, b) = match be_u32(rest1) {
        Ok(v) => v,
        Err(e) => {
            return Err(e);
        },
    };
    assert(rest2@ =~= i@.skip(8));
    let (rest3, c) = match be_u32(rest2) {
        Ok(v) => v,
        Err(e) => {
            return Err(e);
        },
    };
    assert(rest3@ =~= i@.skip(12));
    let (rest4, d) = match be_u32(rest3) {
        Ok(v) => v,
        Err(e) => {
            return Err(e);
        },
    };
    assert(rest4@ =~= i@.skip(16));
    Ok((rest4, (a, b, c, d)))
}

impl SoaRecord {
    /// Reads the two names and the four numbers.
    pub fn parse_rdata<'a>(i: &'a [u8]) -> (r: Result<
        (
            &'a [u8],
            (CompressedNameChain<'a>, CompressedNameChain<'a>, u32, u32, u32, u32),
        ),
        DecodeError,
    >)
        ensures
            (match spec_soa_rdata(i@) {
                Ok((v, n)) => r is Ok && r->Ok_0.0@ == i@.skip(n) && r->Ok_0.1.0@ == v.0
                    && r->Ok_0.1.1@ == v.1 && r->Ok_0.1.2 == v.2 && r->Ok_0.1.3 == v.3
                    && r->Ok_0.1.4 == v.4 && r->Ok_0.1.5 == v.5,
                Err(e) => r is Err && r->Err_0 == e,
            }),
    {
        let (rest1, mname) = match parse_compressed_chain(i) {
            Ok(v) => v,
            Err(e) => {
                return Err(e);
            },
        };
        let ghost n1 = spec_chain(i@)->Ok_0.1;
        proof {
            lemma_chain_within(i@);
        }
        let (rest2, rname) = match parse_compressed_chain(rest1) {
            Ok(v) => v,
            Err(e) => {
                return Err(e);
            },
        };
        let ghost n2 = spec_chain(rest1@)->Ok_0.1;
        proof {
            lemma_chain_within(rest1@);
            assert(rest2@ =~= i@.skip(n1 + n2));
        }
        let (rest3, (serial, refresh, retry, expire)) = match four_u32(rest2) {
            Ok(v) => v,
            Err(e) => {
                return Err(e);
            },
        };
        assert(rest3@ =~= i@.skip(n1 + n2 + 16));
        Ok((rest3, (mname, rname, serial, refresh, retry, expire)))
    }

    /// Decodes the record's data, resolving the names against the message.
    pub fn new(rr: &ResourceRecord, full_dns_message: &[u8]) -> (r: Result<SoaRecord, DecodeError>)
        ensures
            (match spec_soa(rr.rdata@, full_dns_message@) {
                Ok(v) => r is Ok && r->Ok_0@ == v,
                Err(e) => r is Err && r->Err_0 == e,
            }),
    {
        let (_, (mut mname_chain, mut rname_chain, serial, refresh, retry, expire)) =
            match Self::parse_rdata(rr.rdata) {
            Ok(v) => v,
            Err(e) => {
                return Err(e);
            },
        };
        let mname = name_text(&mut mname_chain, full_dns_message);
        let rname = name_text(&mut rname_chain, full_dns_message);
        Ok(SoaRecord { mname, rname, serial, refresh, retry, expire })
    }
}

/// A COOKIE option: the client's cookie and the server's, in hexadecimal.
#[derive(Clone, Debug, PartialEq)]
pub struct OptionCookie {
    pub client_cookie: String,
    pub server_cookie: String,
}

/// One option of an OPT record. `UnknownCode` holds the code and the length
/// of the data of an option that is not interpreted.
#[derive(Clone, Debug, PartialEq)]
pub enum EdnsOption {
    COOKIE(OptionCookie),
    UnknownCode(u16, u16),
}

/// The data of an OPT record: what its class and TTL fields stand for, and
/// its options.
#[derive(Clone, Debug, PartialEq)]
pub struct OptRecord {
    pub udp_payload_size: u16,
    pub e_rcode: u8,
    pub version: u8,
    pub opt_do: u8,
    pub z: u16,
    pub options: Vec<EdnsOption>,
}

/// A COOKIE option as a mathematical value.
pub struct CookieData {
    pub client_cookie: Seq<char>,
    pub server_cookie: Seq<char>,
}

/// An option as a mathematical value.
pub enum OptionData {
    COOKIE(CookieData),
    UnknownCode(u16, u16),
}

/// An OPT record's data as a mathematical value.
pub struct OptData {
    pub udp_payload_size: u16,
    pub e_rcode: u8,
    pub version: u8,
    pub opt_do: u8,
    pub z: u16,
    pub options: Seq<OptionData>,
}

impl View for OptionCookie {
    type V = CookieData;

    open spec fn view(&self) -> CookieData {
        CookieData { client_cookie: self.client_cookie@, server_cookie: self.server_cookie@ }
    }
}

impl View for EdnsOption {
    type V = OptionData;

    open spec fn view(&self) -> OptionData {
        match *self {
            EdnsOption::COOKIE(c) => OptionData::COOKIE(c@),
            EdnsOption::UnknownCode(code, len) => OptionData::UnknownCode(code, len),
        }
    }
}

/// The options as mathematical values.
pub open spec fn options_view(v: Seq<EdnsOption>) -> Seq<OptionData> {
    v.map_values(|o: EdnsOption| o@)
}

impl View for OptRecord {
    type V = OptData;

    open spec fn view(&self) -> OptData {
        OptData {
            udp_payload_size: self.udp_payload_size,
            e_rcode: self.e_rcode,
            version: self.version,
            opt_do: self.opt_do,
            z: self.z,
            options: options_view(self.options@),
        }
    }
}

/// The code of the one option that is interpreted.
pub const OPTION_COOKIE: u16 = 10;

/// How many options of one record are read.
pub const OPTION_MAX: usize = 20;

/// The text that stands for a server cookie that is not there.
pub open spec fn missing_text() -> Seq<char> {
    "<MISSING>"@
}

/// What an option's code and data stand for. A cookie's first eight bytes
/// are the client's, its next eight the server's; data too short to hold a
/// client cookie is an error.
pub open spec fn spec_option_data(code: u16, data: Seq<u8>) -> Result<OptionData, DecodeError> {
    if code == OPTION_COOKIE {
        if data.len() < 8 {
            Err(DecodeError::Incomplete(8))
        } else {
            Ok(
                OptionData::COOKIE(
                    CookieData {
                        client_cookie: hex_text(data.subrange(0, 8)),
                        server_cookie: if data.len() >= 16 {
                            hex_text(data.subrange(8, 16))
                        } else {
                            missing_text()
                        },
                    },
                ),
            )
        }
    } else {
        Ok(OptionData::UnknownCode(code, data.len() as u16))
    }
}

/// The option at the front of `i`: a 16-bit code, a 16-bit length, then
/// that many bytes of data.
pub open spec fn spec_edns_option(i: Seq<u8>) -> Result<(OptionData, int), DecodeError> {
    match spec_uint(i, 2) {
        Err(e) => Err(e),
        Ok((code, n1)) => match spec_uint(i.skip(n1), 2) {
            Err(e) => Err(e),
            Ok((len, n2)) => match spec_take(i.skip(n1 + n2), len) {
                Err(e) => Err(e),
                Ok((data, n3)) => match spec_option_data(code as u16, data) {
                    Err(e) => Err(e),
                    Ok(option) => Ok((option, n1 + n2 + n3)),
                },
            },
        },
    }
}

/// The options at the front of `i`, at most `budget` of them: reading ends
/// with the input and at the first option that is in error.
pub open spec fn spec_edns_options(i: Seq<u8>, budget: nat) -> Seq<OptionData>
    decreases budget,
{
    if budget == 0 {
        Seq::empty()
    } else {
        match spec_edns_option(i) {
            Err(_) => Seq::empty(),
            Ok((option, n)) => if n >= i.len() {
                seq![option]
            } else {
                seq![option] + spec_edns_options(i.skip(n), (budget - 1) as nat)
            },
        }
    }
}

/// An OPT record's data. The class field, as it stood on the wire, is the
/// UDP payload size; the TTL field holds the extended response code in its
/// top byte, the version in the next, the DO bit in bit 15 and the reserved
/// bits below it.
pub open spec fn spec_opt(class_field: u16, ttl: u32, rdata: Seq<u8>) -> OptData {
    OptData {
        udp_payload_size: class_field,
        e_rcode: ((ttl >> 24) & 0xff) as u8,
        version: ((ttl >> 16) & 0xff) as u8,
        opt_do: ((ttl >> 15) & 1) as u8,
        z: (ttl & 0x7fff) as u16,
        options: spec_edns_options(rdata, OPTION_MAX as nat),
    }
}

/// Reads one option.
pub fn parse_edns_option(i: &[u8]) -> (r: Result<(&[u8], EdnsOption), DecodeError>)
    ensures
        (match spec_edns_option(i@) {
            Ok((v, n)) => r is Ok && r->Ok_0.0@ == i@.skip(n) && r->Ok_0.1@ == v,
            Err(e) => r is Err && r->Err_0 == e,
        }),
{
    let (rest1, code) = match be_u16(i) {
        Ok(v) => v,
        Err(e) => {
            return Err(e);
        },
    };
    let (rest2, len) = match be_u16(rest1) {
        Ok(v) => v,
        Err(e) => {
            return Err(e);
        },
    };
    assert(rest2@ =~= i@.skip(4));
    let (rest3, data) = match take(rest2, len as usize) {
        Ok(v) => v,
        Err(e) => {
            return Err(e);
        },
    };
    assert(rest3@ =~= i@.skip(4 + len));
    if code == OPTION_COOKIE {
        if data.len() < 8 {
            return Err(DecodeError::Incomplete(8));
        }
        let client_cookie = hex_encode(vstd::slice::slice_subrange(data, 0, 8));
        let server_cookie = if data.len() >= 16 {
            hex_encode(vstd::slice::slice_subrange(data, 8, 16))
        } else {
            String::from_str("<MISSING>")
        };
        Ok((rest3, EdnsOption::COOKIE(OptionCookie { client_cookie, server_cookie })))
    } else {
        Ok((rest3, EdnsOption::UnknownCode(code, len)))
    }
}

impl OptRecord {
    /// Decodes the record: the fields that the class and the TTL stand for,
    /// and the options, up to the first that is in error.
    pub fn new(rr: &ResourceRecord, _full_dns_message: &[u8]) -> (r: OptRecord)
        ensures
            r@ == spec_opt(rr.class_field, rr.ttl, rr.rdata@),
    {
        let udp_payload_size: u16 = rr.class_field;
        let ttl: u32 = rr.ttl;
        assert((ttl >> 24) & 0xff < 256 && (ttl >> 16) & 0xff < 256 && (ttl >> 15) & 1 < 2 && ttl
            & 0x7fff < 0x8000) by (bit_vector);
        let e_rcode: u8 = ((rr.ttl >> 24) & 0xff) as u8;
        let version: u8 = ((rr.ttl >> 16) & 0xff) as u8;
        let opt_do: u8 = ((rr.ttl >> 15) & 1) as u8;
        let z: u16 = (rr.ttl & 0x7fff) as u16;

        let mut options: Vec<EdnsOption> = Vec::new();
        let mut rest = rr.rdata;
        let mut round: usize = 0;
        let mut done = false;
        assert(options_view(options@) =~= Seq::<OptionData>::empty());
        assert(Seq::<OptionData>::empty() + spec_edns_options(rest@, OPTION_MAX as nat)
            =~= spec_edns_options(rest@, OPTION_MAX as nat));
        while round < OPTION_MAX && !done
            invariant
                round <= OPTION_MAX,
                spec_edns_options(rr.rdata@, OPTION_MAX as nat) == options_view(options@) + (if done {
                    Seq::<OptionData>::empty()
                } else {
                    spec_edns_options(rest@, (OPTION_MAX - round) as nat)
                }),
            decreases (OPTION_MAX - round) + (if done { 0int } else { 1int }),
        {
            let ghost before = options_view(options@);
            match parse_edns_option(rest) {
                Ok((r, option)) => {
                    let ghost o = option@;
                    options.push(option);
                    assert(options_view(options@) =~= before.push(o));
                    if r.len() == 0 {
                        assert(before + seq![o] =~= before.push(o) + Seq::<OptionData>::empty());
                        done = true;
                    } else {
                        assert forall|tail: Seq<OptionData>|
                            before + (seq![o] + tail) == before.push(o) + tail by {
                            assert(before + (seq![o] + tail) =~= before.push(o) + tail);
                        }
                        rest = r;
                    }
                },
                Err(_) => {
                    done = true;
                },
            }
            round = round + 1;
        }
        assert(options_view(options@) + Seq::<OptionData>::empty() =~= options_view(options@));
        OptRecord { udp_payload_size, e_rcode, version, opt_do, z, options }
    }
}

/// The decoded data of a record. `ParserNotImpl` stands for data of a
/// class and type that has no decoder.
#[derive(Clone, Debug, PartialEq)]
pub enum RRecordTypes {
    MX(MxRecord),
    A(ARecord),
    AAAA(AAAARecord),
    PTR(PtrRecord),
    TXT(TxtRecord),
    CNAME(CNameRecord),
    NS(NsRecord),
    SRV(SrvRecord),
    SOA(SoaRecord),
    OPT(OptRecord),
    ParserNotImpl,
}

/// A record's decoded data as a mathematical value.
pub enum RecordData {
    MX(MxData),
    A(ARecord),
    AAAA(AAAARecord),
    PTR(Seq<char>),
    TXT(TxtData),
    CNAME(Seq<char>),
    NS(Seq<char>),
    SRV(SrvData),
    SOA(SoaData),
    OPT(OptData),
    ParserNotImpl,
}

impl View for RRecordTypes {
    type V = RecordData;

    open spec fn view(&self) -> RecordData {
        match *self {
            RRecordTypes::MX(v) => RecordData::MX(v@),
            RRecordTypes::A(v) => RecordData::A(v),
            RRecordTypes::AAAA(v) => RecordData::AAAA(v),
            RRecordTypes::PTR(v) => RecordData::PTR(v@),
            RRecordTypes::TXT(v) => RecordData::TXT(v@),
            RRecordTypes::CNAME(v) => RecordData::CNAME(v@),
            RRecordTypes::NS(v) => RecordData::NS(v@),
            RRecordTypes::SRV(v) => RecordData::SRV(v@),
            RRecordTypes::SOA(v) => RecordData::SOA(v@),
            RRecordTypes::OPT(v) => RecordData::OPT(v@),
            RRecordTypes::ParserNotImpl => RecordData::ParserNotImpl,
        }
    }
}

/// The view of decoded data that may be absent.
pub open spec fn record_view(r: Option<RRecordTypes>) -> Option<RecordData> {
    match r {
        Some(v) => Some(v@),
        None => None,
    }
}

/// One resource record: the fixed fields, the raw data, and the decoded
/// data once the record has been resolved.
#[derive(Debug, PartialEq)]
pub struct ResourceRecord<'a> {
    pub name_chain: CompressedNameChain<'a>,
    pub rrtype: DnsType,
    pub rrclass: DnsClass,
    /// The class field as it stood on the wire.
    pub class_field: u16,
    pub ttl: u32,
    pub rdlength: u16,
    pub rdata: &'a [u8],
    pub record: Option<RRecordTypes>,
}

/// A resource record as a mathematical value.
pub struct ResourceRecordData {
    pub name_chain: NameChain,
    pub rrtype: DnsType,
    pub rrclass: DnsClass,
    pub class_field: u16,
    pub ttl: u32,
    pub rdlength: u16,
    pub rdata: Seq<u8>,
    pub record: Option<RecordData>,
}

impl<'a> View for ResourceRecord<'a> {
    type V = ResourceRecordData;

    open spec fn view(&self) -> ResourceRecordData {
        ResourceRecordData {
            name_chain: self.name_chain@,
            rrtype: self.rrtype,
            rrclass: self.rrclass,
            class_field: self.class_field,
            ttl: self.ttl,
            rdlength: self.rdlength,
            rdata: self.rdata@,
            record: record_view(self.record),
        }
    }
}

/// The decoded data of a record of the given type and class. An OPT record
/// is decoded whatever its class; of the others, those of class IN that
/// have a decoder. The rest gives `ParserNotImpl`.
#[verifier::opaque]
pub open spec fn spec_record_data(
    rrtype: DnsType,
    rrclass: DnsClass,
    class_field: u16,
    ttl: u32,
    rdata: Seq<u8>,
    msg: Seq<u8>,
) -> Result<RecordData, DecodeError> {
    if rrtype is OPT {
        Ok(RecordData::OPT(spec_opt(class_field, ttl, rdata)))
    } else if rrclass is IN {
        match rrtype {
            DnsType::MX => match spec_mx(rdata, msg) {
                Ok(v) => Ok(RecordData::MX(v)),
                Err(e) => Err(e),
            },
            DnsType::A => match spec_address_rdata(rdata, 4) {
                Ok((v, _)) => Ok(RecordData::A(ARecord { address: v as u32 })),
                Err(e) => Err(e),
            },
            DnsType::AAAA => match spec_address_rdata(rdata, 16) {
                Ok((v, _)) => Ok(RecordData::AAAA(AAAARecord { address: v as u128 })),
                Err(e) => Err(e),
            },
            DnsType::PTR => match spec_name_record(rdata, msg) {
                Ok(v) => Ok(RecordData::PTR(v)),
                Err(e) => Err(e),
            },
            DnsType::TXT => match spec_txt(rdata) {
                Ok(v) => Ok(RecordData::TXT(v)),
                Err(e) => Err(e),
            },
            DnsType::CNAME => match spec_name_record(rdata, msg) {
                Ok(v) => Ok(RecordData::CNAME(v)),
                Err(e) => Err(e),
            },
            DnsType::NS => match spec_name_record(rdata, msg) {
                Ok(v) => Ok(RecordData::NS(v)),
                Err(e) => Err(e),
            },
            DnsType::SRV => match spec_srv(rdata, msg) {
                Ok(v) => Ok(RecordData::SRV(v)),
                Err(e) => Err(e),
            },
            DnsType::SOA => match spec_soa(rdata, msg) {
                Ok(v) => Ok(RecordData::SOA(v)),
                Err(e) => Err(e),
            },
            _ => Ok(RecordData::ParserNotImpl),
        }
    } else {
        Ok(RecordData::ParserNotImpl)
    }
}

/// The record after resolution against `msg`, and whether its data could
/// be decoded.
///
/// The name is resolved in any case. Data that was decoded before stays.
/// Otherwise the data is decoded: an error leaves the record without
/// decoded data. The class of a decoded OPT record becomes `OtherUsage`
/// of its class field.
pub open spec fn spec_resolve_record(rr: ResourceRecordData, msg: Seq<u8>) -> (
    ResourceRecordData,
    Result<(), DecodeError>,
) {
    let name_chain = spec_resolved(rr.name_chain, 0, msg);
    if rr.record is Some {
        (
            ResourceRecordData {
                name_chain,
                rrtype: rr.rrtype,
                rrclass: rr.rrclass,
                class_field: rr.class_field,
                ttl: rr.ttl,
                rdlength: rr.rdlength,
                rdata: rr.rdata,
                record: rr.record,
            },
            Ok(()),
        )
    } else {
        match spec_record_data(rr.rrtype, rr.rrclass, rr.class_field, rr.ttl, rr.rdata, msg) {
            Err(e) => (
                ResourceRecordData {
                    name_chain,
                    rrtype: rr.rrtype,
                    rrclass: rr.rrclass,
                    class_field: rr.class_field,
                    ttl: rr.ttl,
                    rdlength: rr.rdlength,
                    rdata: rr.rdata,
                    record: None,
                },
                Err(e),
            ),
            Ok(data) => (
                ResourceRecordData {
                    name_chain,
                    rrtype: rr.rrtype,
                    rrclass: if rr.rrtype is OPT {
                        DnsClass::OtherUsage(rr.class_field)
                    } else {
                        rr.rrclass
                    },
                    class_field: rr.class_field,
                    ttl: rr.ttl,
                    rdlength: rr.rdlength,
                    rdata: rr.rdata,
                    record: Some(data),
                },
                Ok(()),
            ),
        }
    }
}

impl ResourceRecordData {
    /// The length field says how long the data is, and the class is that of
    /// the class field, or marks the field as put to another use.
    pub open spec fn wf(self) -> bool {
        &&& self.rdlength == self.rdata.len()
        &&& self.rrclass == spec_dnsclass(self.class_field) || self.rrclass
            == DnsClass::OtherUsage(self.class_field)
    }
}

/// A record read from bytes is well formed and holds no decoded data, and
/// resolution keeps a record well formed.
pub proof fn lemma_record_stays_well_formed(i: Seq<u8>, rr: ResourceRecordData, msg: Seq<u8>)
    ensures
        spec_parse_resource_record(i) is Ok ==> spec_parse_resource_record(i)->Ok_0.0.wf()
            && spec_parse_resource_record(i)->Ok_0.0.record is None,
        rr.wf() ==> spec_resolve_record(rr, msg).0.wf(),
        spec_resolve_record(rr, msg).0.rdata == rr.rdata,
        spec_resolve_record(rr, msg).0.rrtype == rr.rrtype,
        spec_resolve_record(rr, msg).0.ttl == rr.ttl,
        spec_resolve_record(rr, msg).0.class_field == rr.class_field,
{
    if spec_parse_resource_record(i) is Ok {
        let n1 = spec_chain(i)->Ok_0.1;
        lemma_uint_fits(i.skip(n1 + 8));
    }
}

/// The name of a record that was read from bytes and resolved is not empty,
/// where the record's bytes start a name which holds a text.
pub proof fn lemma_record_name_not_empty(msg: Seq<u8>, i: Seq<u8>, hops: nat)
    requires
        leads_to_text(msg, i, hops),
        spec_parse_resource_record(i) is Ok,
        spec_resolve_record(spec_parse_resource_record(i)->Ok_0.0, msg).0.name_chain.name
            is Some,
    ensures
        spec_resolve_record(
            spec_parse_resource_record(i)->Ok_0.0,
            msg,
        ).0.name_chain.name->Some_0.len() > 0,
{
    lemma_resolved_chain_not_empty(msg, i, hops);
}

/// The options of a record are at most twenty.
pub proof fn lemma_options_within_budget(i: Seq<u8>, budget: nat)
    ensures
        spec_edns_options(i, budget).len() <= budget,
    decreases budget,
{
    if budget > 0 && spec_edns_option(i) is Ok {
        lemma_options_within_budget(i.skip(spec_edns_option(i)->Ok_0.1), (budget - 1) as nat);
    }
}

/// The fields of an OPT record lie in their ranges: the DO bit is a bit, the
/// reserved bits are fifteen, and the options at most twenty.
pub proof fn lemma_opt_fields_in_range(class_field: u16, ttl: u32, rdata: Seq<u8>)
    ensures
        spec_opt(class_field, ttl, rdata).opt_do <= 1,
        spec_opt(class_field, ttl, rdata).z <= 0x7fff,
        spec_opt(class_field, ttl, rdata).options.len() <= OPTION_MAX,
        spec_opt(class_field, ttl, rdata).udp_payload_size == class_field,
{
    assert((ttl >> 15) & 1 <= 1 && ttl & 0x7fff <= 0x7fff) by (bit_vector);
    lemma_options_within_budget(rdata, OPTION_MAX as nat);
}

/// An OPT record is decoded whatever its class, and its decoding never
/// fails.
pub proof fn lemma_opt_whatever_the_class(
    rrclass: DnsClass,
    class_field: u16,
    ttl: u32,
    rdata: Seq<u8>,
    msg: Seq<u8>,
)
    ensures
        spec_record_data(DnsType::OPT, rrclass, class_field, ttl, rdata, msg) == Ok::<
            RecordData,
            DecodeError,
        >(RecordData::OPT(spec_opt(class_field, ttl, rdata))),
        spec_opt(class_field, ttl, rdata).udp_payload_size == class_field,
{
    reveal(spec_record_data);
}

/// A class and type without a decoder is no error: it gives
/// `ParserNotImpl`.
pub proof fn lemma_no_decoder_is_no_error(
    rrtype: DnsType,
    rrclass: DnsClass,
    class_field: u16,
    ttl: u32,
    rdata: Seq<u8>,
    msg: Seq<u8>,
)
    requires
        !(rrtype is OPT),
        !(rrclass is IN) || !(rrtype is MX || rrtype is A || rrtype is AAAA || rrtype is PTR
            || rrtype is TXT || rrtype is CNAME || rrtype is NS || rrtype is SRV || rrtype is SOA),
    ensures
        spec_record_data(rrtype, rrclass, class_field, ttl, rdata, msg) == Ok::<
            RecordData,
            DecodeError,
        >(RecordData::ParserNotImpl),
{
    reveal(spec_record_data);
}

/// A TXT string must fill the record's data: data whose length byte does
/// not say how many bytes follow it is an error.
pub proof fn lemma_txt_length_must_match(rdata: Seq<u8>)
    ensures
        spec_txt(rdata) is Ok <==> rdata.len() >= 1 && rdata[0] == rdata.len() - 1,
        spec_txt(rdata) is Ok ==> spec_txt(rdata)->Ok_0.len == rdata[0] && spec_txt(
            rdata,
        )->Ok_0.bytes == rdata.skip(1),
        spec_txt(rdata) is Ok && valid_utf8(rdata.skip(1)) ==> spec_txt(rdata)->Ok_0.text
            == decode_utf8(rdata.skip(1)),
{
    if rdata.len() >= 1 {
        assert(rdata.take(1).drop_last() =~= Seq::<u8>::empty());
        reveal_with_fuel(crate::parse::dns::wire::be_value, 2);
        assert(crate::parse::dns::wire::be_value(rdata.take(1)) == rdata[0]);
        if rdata[0] == rdata.len() - 1 {
            assert(rdata.skip(1).take(rdata[0] as int) =~= rdata.skip(1));
        }
    }
}

/// A cookie of eight to fifteen bytes has no server part: the server cookie
/// is the marker, which is not the empty text.
pub proof fn lemma_cookie_without_server_part(data: Seq<u8>)
    requires
        8 <= data.len() < 16,
    ensures
        spec_option_data(OPTION_COOKIE, data) is Ok,
        spec_option_data(OPTION_COOKIE, data)->Ok_0 is COOKIE,
        spec_option_data(OPTION_COOKIE, data)->Ok_0->COOKIE_0.server_cookie == missing_text(),
        spec_option_data(OPTION_COOKIE, data)->Ok_0->COOKIE_0.client_cookie == hex_text(
            data.subrange(0, 8),
        ),
        missing_text().len() == 9,
{
    reveal_strlit("<MISSING>");
}

impl<'a> ResourceRecord<'a> {
    /// Resolves the record's name, and decodes its data unless that was
    /// done before.
    pub fn resolve(&mut self, full_dns_message: &[u8]) -> (r: Result<(), DecodeError>)
        ensures
            final(self)@ == spec_resolve_record(old(self)@, full_dns_message@).0,
            r == spec_resolve_record(old(self)@, full_dns_message@).1,
    {
        reveal(spec_record_data);
        self.name_chain.resolve_name(0, full_dns_message);
        if self.record.is_some() {
            return Ok(());
        }
        let record = match (self.rrclass, self.rrtype) {
            (_, DnsType::OPT) => {
                let opt = OptRecord::new(self, full_dns_message);
                self.rrclass = DnsClass::OtherUsage(self.class_field);
                RRecordTypes::OPT(opt)
            },
            (DnsClass::IN, DnsType::MX) => match MxRecord::new(self, full_dns_message) {
                Ok(v) => RRecordTypes::MX(v),
                Err(e) => {
                    return Err(e);
                },
            },
            (DnsClass::IN, DnsType::A) => match ARecord::new(self) {
                Ok(v) => RRecordTypes::A(v),
                Err(e) => {
                    return Err(e);
                },
            },
            (DnsClass::IN, DnsType::AAAA) => match AAAARecord::new(self) {
                Ok(v) => RRecordTypes::AAAA(v),
                Err(e) => {
                    return Err(e);
                },
            },
            (DnsClass::IN, DnsType::PTR) => match PtrRecord::new(self, full_dns_message) {
                Ok(v) => RRecordTypes::PTR(v),
                Err(e) => {
                    return Err(e);
                },
            },
            (DnsClass::IN, DnsType::TXT) => match TxtRecord::new(self) {
                Ok(v) => RRecordTypes::TXT(v),
                Err(e) => {
                    return Err(e);
                },
            },
            (DnsClass::IN, DnsType::CNAME) => match CNameRecord::new(self, full_dns_message) {
                Ok(v) => RRecordTypes::CNAME(v),
                Err(e) => {
                    return Err(e);
                },
            },
            (DnsClass::IN, DnsType::NS) => match NsRecord::new(self, full_dns_message) {
                Ok(v) => RRecordTypes::NS(v),
                Err(e) => {
                    return Err(e);
                },
            },
            (DnsClass::IN, DnsType::SRV) => match SrvRecord::new(self, full_dns_message) {
                Ok(v) => RRecordTypes::SRV(v),
                Err(e) => {
                    return Err(e);
                },
            },
            (DnsClass::IN, DnsType::SOA) => match SoaRecord::new(self, full_dns_message) {
                Ok(v) => RRecordTypes::SOA(v),
                Err(e) => {
                    return Err(e);
                },
            },
            (_, _) => RRecordTypes::ParserNotImpl,
        };
        self.record = Some(record);
        Ok(())
    }
}

/// The record at the front of `i`: a name, a type, a class, a 32-bit TTL, a
/// 16-bit length, and that many bytes of data. The data is not looked into.
pub open spec fn spec_parse_resource_record(i: Seq<u8>) -> Result<
    (ResourceRecordData, int),
    DecodeError,
> {
    match spec_chain(i) {
        Err(e) => Err(e),
        Ok((name_chain, n1)) => match spec_parse_dnstype(i.skip(n1)) {
            Err(e) => Err(e),
            Ok((rrtype, n2)) => match spec_uint(i.skip(n1 + n2), 2) {
                Err(e) => Err(e),
                Ok((class_field, n3)) => match spec_uint(i.skip(n1 + n2 + n3), 4) {
                    Err(e) => Err(e),
                    Ok((ttl, n4)) => match spec_uint(i.skip(n1 + n2 + n3 + n4), 2) {
                        Err(e) => Err(e),
                        Ok((rdlength, n5)) => match spec_take(
                            i.skip(n1 + n2 + n3 + n4 + n5),
                            rdlength,
                        ) {
                            Err(e) => Err(e),
                            Ok((rdata, n6)) => Ok(
                                (
                                    ResourceRecordData {
                                        name_chain,
                                        rrtype,
                                        rrclass: spec_dnsclass(class_field as u16),
                                        class_field: class_field as u16,
                                        ttl: ttl as u32,
                                        rdlength: rdlength as u16,
                                        rdata,
                                        record: None,
                                    },
                                    n1 + n2 + n3 + n4 + n5 + n6,
                                ),
                            ),
                        },
                    },
                },
            },
        },
    }
}

/// Reads one record.
pub fn parse_resource_record<'a>(i: &'a [u8]) -> (r: Result<
    (&'a [u8], ResourceRecord<'a>),
    DecodeError,
>)
    ensures
        (match spec_parse_resource_record(i@) {
            Ok((v, n)) => r is Ok && r->Ok_0.0@ == i@.skip(n) && r->Ok_0.1@ == v,
            Err(e) => r is Err && r->Err_0 == e,
        }),
{
    let (rest1, name_chain) = match parse_compressed_chain(i) {
        Ok(v) => v,
        Err(e) => {
            return Err(e);
        },
    };
    let ghost n1 = spec_chain(i@)->Ok_0.1;
    proof {
        lemma_chain_within(i@);
    }
    let (rest2, rrtype) = match parse_dnstype(rest1) {
        Ok(v) => v,
        Err(e) => {
            return Err(e);
        },
    };
    assert(rest2@ =~= i@.skip(n1 + 2));
    let (rest3, class_field) = match be_u16(rest2) {
        Ok(v) => v,
        Err(e) => {
            return Err(e);
        },
    };
    let rrclass = dnsclass_of(class_field);
    assert(rest3@ =~= i@.skip(n1 + 4));
    let (rest4, ttl) = match be_u32(rest3) {
        Ok(v) => v,
        Err(e) => {
            return Err(e);
        },
    };
    assert(rest4@ =~= i@.skip(n1 + 8));
    let (rest5, rdlength) = match be_u16(rest4) {
        Ok(v) => v,
        Err(e) => {
            return Err(e);
        },
    };
    assert(rest5@ =~= i@.skip(n1 + 10));
    let (rest6, rdata) = match take(rest5, rdlength as usize) {
        Ok(v) => v,
        Err(e) => {
            return Err(e);
        },
    };
    assert(rest6@ =~= i@.skip(n1 + 10 + rdlength));
    Ok(
        (
            rest6,
            ResourceRecord {
                name_chain,
                rrtype,
                rrclass,
                class_field,
                ttl,
                rdlength,
                rdata,
                record: None,
            },
        ),
    )
}

} // verus!
