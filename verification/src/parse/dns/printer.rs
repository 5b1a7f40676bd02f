//! Decoded messages laid out for output: every field as the text or number
//! that is written, and the one-line summary of a packet.

use crate::parse::dns::dns_message::{
    dns_message, queries_view, records_view, spec_dns_message, DnsMessage, MessageData,
};
use crate::parse::dns::dns_parameters::DnsClass;
use crate::parse::dns::query::{Query, QueryData};
use crate::parse::dns::record_text::{ipv4_text, ipv4_to_text};
use crate::parse::dns::resource_record::{
    options_view, CNameRecord, EdnsOption, MxRecord, NsRecord, OptRecord, OptionCookie,
    PtrRecord, RRecordTypes, RecordData, ResourceRecord, ResourceRecordData, SoaRecord,
    SrvRecord, TxtRecord,
};
use crate::parse::dns::text::{
    decimal, decimal_text, join_texts, join_with, pad_left, pad_left_text, pad_right,
    pad_right_text, signed_decimal, signed_decimal_text, text_or_empty, texts,
};
use vstd::prelude::*;
use vstd::slice::slice_to_vec;
use vstd::string::StringExecFns;

verus! {

/// A copy of one option.
fn copy_option(option: &EdnsOption) -> (r: EdnsOption)
    ensures
        r@ == option@,
{
    match option {
        EdnsOption::COOKIE(c) => EdnsOption::COOKIE(
            OptionCookie {
                client_cookie: c.client_cookie.clone(),
                server_cookie: c.server_cookie.clone(),
            },
        ),
        EdnsOption::UnknownCode(code, len) => EdnsOption::UnknownCode(*code, *len),
    }
}

/// A copy of the options.
fn copy_options(options: &Vec<EdnsOption>) -> (r: Vec<EdnsOption>)
    ensures
        options_view(r@) == options_view(options@),
{
    let mut out: Vec<EdnsOption> = Vec::new();
    let mut k: usize = 0;
    while k < options.len()
        invariant
            k <= options.len(),
            out@.len() == k,
            forall|j: int| 0 <= j < k ==> (#[trigger] out@[j])@ == options@[j]@,
        decreases options.len() - k,
    {
        out.push(copy_option(&options[k]));
        k = k + 1;
    }
    assert(options_view(out@) =~= options_view(options@));
    out
}

/// A copy of decoded record data.
pub fn copy_record(record: &RRecordTypes) -> (r: RRecordTypes)
    ensures
        r@ == record@,
{
    match record {
        RRecordTypes::MX(v) => RRecordTypes::MX(
            MxRecord { preference: v.preference, exchange: v.exchange.clone() },
        ),
        RRecordTypes::A(v) => RRecordTypes::A(*v),
        RRecordTypes::AAAA(v) => RRecordTypes::AAAA(*v),
        RRecordTypes::PTR(v) => RRecordTypes::PTR(PtrRecord { name: v.name.clone() }),
        RRecordTypes::TXT(v) => RRecordTypes::TXT(
            TxtRecord { len: v.len, bytes: slice_to_vec(v.bytes.as_slice()), text: v.text.clone() },
        ),
        RRecordTypes::CNAME(v) => RRecordTypes::CNAME(CNameRecord { name: v.name.clone() }),
        RRecordTypes::NS(v) => RRecordTypes::NS(NsRecord { name: v.name.clone() }),
        RRecordTypes::SRV(v) => RRecordTypes::SRV(
            SrvRecord { prio: v.prio, weight: v.weight, port: v.port, target: v.target.clone() },
        ),
        RRecordTypes::SOA(v) => RRecordTypes::SOA(
            SoaRecord {
                mname: v.mname.clone(),
                rname: v.rname.clone(),
                serial: v.serial,
                refresh: v.refresh,
                retry: v.retry,
                expire: v.expire,
            },
        ),
        RRecordTypes::OPT(v) => RRecordTypes::OPT(
            OptRecord {
                udp_payload_size: v.udp_payload_size,
                e_rcode: v.e_rcode,
                version: v.version,
                opt_do: v.opt_do,
                z: v.z,
                options: copy_options(&v.options),
            },
        ),
        RRecordTypes::ParserNotImpl => RRecordTypes::ParserNotImpl,
    }
}

/// One resource record laid out for output.
#[derive(Debug, PartialEq)]
pub struct ResourceRecordPrinter {
    pub name: String,
    pub rrtype: String,
    pub rrclass: String,
    pub ttl: u32,
    pub rdata: RRecordTypes,
}

/// A record laid out for output, as a mathematical value.
pub struct ResourceRecordLine {
    pub name: Seq<char>,
    pub rrtype: Seq<char>,
    pub rrclass: Seq<char>,
    pub ttl: u32,
    pub rdata: RecordData,
}

impl View for ResourceRecordPrinter {
    type V = ResourceRecordLine;

    open spec fn view(&self) -> ResourceRecordLine {
        ResourceRecordLine {
            name: self.name@,
            rrtype: self.rrtype@,
            rrclass: self.rrclass@,
            ttl: self.ttl,
            rdata: self.rdata@,
        }
    }
}

impl ResourceRecordLine {
    /// The record laid out: the name that was resolved, or the empty text;
    /// the names of type and class, with `*` for a class field that is put
    /// to another use; the decoded data, or `ParserNotImpl` where there is
    /// none.
    pub open spec fn of(rr: ResourceRecordData) -> ResourceRecordLine {
        ResourceRecordLine {
            name: text_or_empty(rr.name_chain.name),
            rrtype: rr.rrtype.spec_name(),
            rrclass: if rr.rrclass is OtherUsage {
                "*"@
            } else {
                rr.rrclass.spec_name()
            },
            ttl: rr.ttl,
            rdata: match rr.record {
                Some(record) => record,
                None => RecordData::ParserNotImpl,
            },
        }
    }

    /// The record as text: class, TTL, type and name with slashes between
    /// them, then the data in brackets.
    pub open spec fn text(self) -> Seq<char> {
        self.rrclass + "/"@ + decimal_text(self.ttl as nat) + "/"@ + self.rrtype + "/"@
            + self.name + "("@ + self.rdata.text() + ")"@
    }
}

impl ResourceRecordPrinter {
    /// Lays a record out for output.
    pub fn from_rr(rr: &ResourceRecord) -> (r: ResourceRecordPrinter)
        ensures
            r@ == ResourceRecordLine::of(rr@),
    {
        let rrclass = match rr.rrclass {
            DnsClass::OtherUsage(_) => String::from_str("*"),
            _ => rr.rrclass.name(),
        };
        let rrtype = rr.rrtype.name();
        let name: String = match &rr.name_chain.name {
            Some(name) => name.clone(),
            None => String::new(),
        };
        let rdata = match &rr.record {
            Some(record) => copy_record(record),
            None => RRecordTypes::ParserNotImpl,
        };
        ResourceRecordPrinter { name, rrclass, rrtype, ttl: rr.ttl, rdata }
    }

    /// The record as text.
    pub fn to_text(&self) -> (r: String)
        ensures
            r@ == self@.text(),
    {
        let mut out = self.rrclass.clone();
        out.append("/");
        out.append(decimal(self.ttl as u64).as_str());
        out.append("/");
        out.append(self.rrtype.as_str());
        out.append("/");
        out.append(self.name.as_str());
        out.append("(");
        out.append(self.rdata.to_text().as_str());
        out.append(")");
        out
    }
}

/// One query laid out for output.
#[derive(Debug, PartialEq)]
pub struct QueryPrinter {
    pub qclass: String,
    pub qtype: String,
    pub qname: String,
}

/// A query laid out for output, as a mathematical value.
pub struct QueryLine {
    pub qclass: Seq<char>,
    pub qtype: Seq<char>,
    pub qname: Seq<char>,
}

impl View for QueryPrinter {
    type V = QueryLine;

    open spec fn view(&self) -> QueryLine {
        QueryLine { qclass: self.qclass@, qtype: self.qtype@, qname: self.qname@ }
    }
}

impl QueryLine {
    /// The query laid out: the names of class and type, and the name that
    /// was resolved, or the empty text.
    pub open spec fn of(q: QueryData) -> QueryLine {
        QueryLine {
            qclass: q.qclass.spec_name(),
            qtype: q.qtype.spec_name(),
            qname: text_or_empty(q.name_chain.name),
        }
    }

    /// The query as text: class, type and name with slashes between them.
    pub open spec fn text(self) -> Seq<char> {
        self.qclass + "/"@ + self.qtype + "/"@ + self.qname
    }
}

impl QueryPrinter {
    /// Lays a query out for output.
    pub fn from_query(q: &Query) -> (r: QueryPrinter)
        ensures
            r@ == QueryLine::of(q@),
    {
        let qclass = q.qclass.name();
        let qtype = q.qtype.name();
        let qname: String = match &q.name_chain.name {
            Some(name) => name.clone(),
            None => String::new(),
        };
        QueryPrinter { qclass, qtype, qname }
    }

    /// The query as text.
    pub fn to_text(&self) -> (r: String)
        ensures
            r@ == self@.text(),
    {
        let mut out = self.qclass.clone();
        out.append("/");
        out.append(self.qtype.as_str());
        out.append("/");
        out.append(self.qname.as_str());
        out
    }
}

/// What is known of a captured packet besides the message it carries: when
/// it was captured, in seconds and microseconds, and the IPv4 addresses and
/// UDP ports it went between.
#[derive(Clone, Copy, Debug, PartialEq, Eq)]
pub struct PacketInfo {
    pub ts_sec: i64,
    pub ts_usec: i64,
    pub src: u32,
    pub sport: u16,
    pub dest: u32,
    pub dport: u16,
}

/// One packet laid out for output.
#[derive(Debug, PartialEq)]
pub struct PacketPrinter {
    pub ts: String,
    pub proto: String,
    pub src: String,
    pub sport: u16,
    pub dest: String,
    pub dport: u16,
    pub qid: u16,
    pub opcode: String,
    pub qr: String,
    pub rcode: String,
    pub queries: Vec<QueryPrinter>,
    pub answers: Vec<ResourceRecordPrinter>,
    pub nsrecords: Vec<ResourceRecordPrinter>,
    pub arecords: Vec<ResourceRecordPrinter>,
}

/// A packet laid out for output, as a mathematical value.
pub struct PacketLine {
    pub ts: Seq<char>,
    pub proto: Seq<char>,
    pub src: Seq<char>,
    pub sport: u16,
    pub dest: Seq<char>,
    pub dport: u16,
    pub qid: u16,
    pub opcode: Seq<char>,
    pub qr: Seq<char>,
    pub rcode: Seq<char>,
    pub queries: Seq<QueryLine>,
    pub answers: Seq<ResourceRecordLine>,
    pub nsrecords: Seq<ResourceRecordLine>,
    pub arecords: Seq<ResourceRecordLine>,
}

/// The queries laid out as mathematical values.
pub open spec fn query_lines(v: Seq<QueryPrinter>) -> Seq<QueryLine> {
    v.map_values(|q: QueryPrinter| q@)
}

/// The records laid out as mathematical values.
pub open spec fn record_lines(v: Seq<ResourceRecordPrinter>) -> Seq<ResourceRecordLine> {
    v.map_values(|r: ResourceRecordPrinter| r@)
}

impl View for PacketPrinter {
    type V = PacketLine;

    open spec fn view(&self) -> PacketLine {
        PacketLine {
            ts: self.ts@,
            proto: self.proto@,
            src: self.src@,
            sport: self.sport,
            dest: self.dest@,
            dport: self.dport,
            qid: self.qid,
            opcode: self.opcode@,
            qr: self.qr@,
            rcode: self.rcode@,
            queries: query_lines(self.queries@),
            answers: record_lines(self.answers@),
            nsrecords: record_lines(self.nsrecords@),
            arecords: record_lines(self.arecords@),
        }
    }
}

/// The texts of the queries with `, ` between them.
pub open spec fn query_list_text(lines: Seq<QueryLine>) -> Seq<char> {
    join_texts(lines.map_values(|q: QueryLine| q.text()), ", "@)
}

/// The texts of the records with `, ` between them.
pub open spec fn record_list_text(lines: Seq<ResourceRecordLine>) -> Seq<char> {
    join_texts(lines.map_values(|r: ResourceRecordLine| r.text()), ", "@)
}

/// A section of records in the summary: nothing where there are none, else
/// the label and the records between bars.
pub open spec fn record_section_text(label: Seq<char>, lines: Seq<ResourceRecordLine>) -> Seq<
    char,
> {
    if lines.len() == 0 {
        Seq::empty()
    } else {
        label + record_list_text(lines) + "|"@
    }
}

impl PacketLine {
    /// The packet laid out: the time as seconds, a dot and microseconds;
    /// the protocol, which is UDP; the addresses in dotted decimal; the
    /// header's id and the names of its opcode, direction and response
    /// code; and every query and record laid out.
    pub open spec fn of(packet: PacketInfo, dns: MessageData) -> PacketLine {
        PacketLine {
            ts: signed_decimal_text(packet.ts_sec as int) + "."@ + signed_decimal_text(
                packet.ts_usec as int,
            ),
            proto: "UDP"@,
            src: ipv4_text(packet.src),
            sport: packet.sport,
            dest: ipv4_text(packet.dest),
            dport: packet.dport,
            qid: dns.header.id,
            opcode: dns.header.flags.opcode.spec_name(),
            qr: dns.header.flags.qr.spec_name(),
            rcode: dns.header.flags.rcode.spec_name(),
            queries: dns.queries.map_values(|q: QueryData| QueryLine::of(q)),
            answers: dns.answers.map_values(|r: ResourceRecordData| ResourceRecordLine::of(r)),
            nsrecords: dns.nsrecords.map_values(
                |r: ResourceRecordData| ResourceRecordLine::of(r),
            ),
            arecords: dns.arecords.map_values(|r: ResourceRecordData| ResourceRecordLine::of(r)),
        }
    }

    /// The one-line summary of the packet.
    ///
    /// The time, the protocol, source and destination with their ports, the
    /// id, opcode, direction and response code stand in columns of fixed
    /// width; then come the sections that are not empty, each with its label
    /// and between bars: queries, answers, authority records, additional
    /// records.
    pub open spec fn text(self) -> Seq<char> {
        pad_right_text(self.ts, 18) + " "@ + pad_right_text(self.proto, 3) + " "@ + pad_left_text(
            self.src + ":"@ + decimal_text(self.sport as nat),
            21,
        ) + " -> "@ + pad_right_text(self.dest + ":"@ + decimal_text(self.dport as nat), 21) + " "@
            + pad_left_text(decimal_text(self.qid as nat), 6) + " "@ + pad_left_text(
            self.opcode,
            7,
        ) + "/"@ + pad_right_text(self.qr, 10) + " "@ + pad_right_text(self.rcode, 10) + "\t"@ + (
        if self.queries.len() == 0 {
            Seq::empty()
        } else {
            pad_right_text("\tq:|"@ + query_list_text(self.queries) + "|"@, 40)
        }) + record_section_text("\ta:|"@, self.answers) + record_section_text(
            "\tns:|"@,
            self.nsrecords,
        ) + record_section_text("\tar:|"@, self.arecords)
    }
}

/// Lays the records of one section out.
fn record_printers(records: &Vec<ResourceRecord>) -> (r: Vec<ResourceRecordPrinter>)
    ensures
        record_lines(r@) == records_view(records@).map_values(
            |r: ResourceRecordData| ResourceRecordLine::of(r),
        ),
{
    let mut out: Vec<ResourceRecordPrinter> = Vec::new();
    let mut k: usize = 0;
    while k < records.len()
        invariant
            k <= records.len(),
            out@.len() == k,
            forall|j: int| 0 <= j < k ==> (#[trigger] out@[j])@ == ResourceRecordLine::of(
                records@[j]@,
            ),
        decreases records.len() - k,
    {
        out.push(ResourceRecordPrinter::from_rr(&records[k]));
        k = k + 1;
    }
    assert(record_lines(out@) =~= records_view(records@).map_values(
        |r: ResourceRecordData| ResourceRecordLine::of(r),
    ));
    out
}

/// The section of records in the summary.
fn record_section(label: &str, records: &Vec<ResourceRecordPrinter>) -> (r: String)
    ensures
        r@ == record_section_text(label@, record_lines(records@)),
{
    if records.len() == 0 {
        return String::new();
    }
    let mut parts: Vec<String> = Vec::new();
    let mut k: usize = 0;
    while k < records.len()
        invariant
            k <= records.len(),
            parts@.len() == k,
            forall|j: int| 0 <= j < k ==> (#[trigger] parts@[j])@ == records@[j]@.text(),
        decreases records.len() - k,
    {
        parts.push(records[k].to_text());
        k = k + 1;
    }
    assert(texts(parts@) =~= record_lines(records@).map_values(|r: ResourceRecordLine| r.text()));
    let mut out = String::from_str(label);
    out.append(join_with(&parts, ", ").as_str());
    out.append("|");
    out
}

impl PacketPrinter {
    /// Lays a packet out for output.
    pub fn new(packet: &PacketInfo, dns: &DnsMessage) -> (r: PacketPrinter)
        ensures
            r@ == PacketLine::of(*packet, dns@),
    {
        let mut ts = signed_decimal(packet.ts_sec);
        ts.append(".");
        ts.append(signed_decimal(packet.ts_usec).as_str());
        let proto = String::from_str("UDP");
        let src = ipv4_to_text(packet.src);
        let sport = packet.sport;
        let dest = ipv4_to_text(packet.dest);
        let dport = packet.dport;
        let qid = dns.header.id;
        let opcode = dns.header.flags.opcode.name();
        let qr = dns.header.flags.qr.name();
        let rcode = dns.header.flags.rcode.name();

        let mut queries: Vec<QueryPrinter> = Vec::new();
        let mut k: usize = 0;
        while k < dns.queries.len()
            invariant
                k <= dns.queries.len(),
                queries@.len() == k,
                forall|j: int| 0 <= j < k ==> (#[trigger] queries@[j])@ == QueryLine::of(
                    dns.queries@[j]@,
                ),
            decreases dns.queries.len() - k,
        {
            queries.push(QueryPrinter::from_query(&dns.queries[k]));
            k = k + 1;
        }
        assert(query_lines(queries@) =~= queries_view(dns.queries@).map_values(
            |q: QueryData| QueryLine::of(q),
        ));
        let answers = record_printers(&dns.answers);
        let nsrecords = record_printers(&dns.nsrecords);
        let arecords = record_printers(&dns.arecords);

        PacketPrinter {
            ts,
            proto,
            src,
            sport,
            dest,
            dport,
            qid,
            opcode,
            qr,
            rcode,
            queries,
            answers,
            nsrecords,
            arecords,
        }
    }

    /// Decodes the message that a UDP payload holds, records and all, and
    /// lays the packet out. A payload that does not decode gives nothing:
    /// such a packet is passed over.
    pub fn from_payload(packet: &PacketInfo, payload: &[u8]) -> (r: Option<PacketPrinter>)
        ensures
            (match spec_dns_message(payload@, true) {
                Ok((message, _)) => r is Some && r->Some_0@ == PacketLine::of(*packet, message),
                Err(_) => r is None,
            }),
    {
        match dns_message(payload, true) {
            Ok((_rest, message)) => Some(PacketPrinter::new(packet, &message)),
            Err(_) => None,
        }
    }

    /// The one-line summary of the packet.
    pub fn to_text(&self) -> (r: String)
        ensures
            r@ == self@.text(),
    {
        let mut source = self.src.clone();
        source.append(":");
        source.append(decimal(self.sport as u64).as_str());
        let mut destination = self.dest.clone();
        destination.append(":");
        destination.append(decimal(self.dport as u64).as_str());

        let mut out = pad_right(self.ts.as_str(), 18);
        out.append(" ");
        out.append(pad_right(self.proto.as_str(), 3).as_str());
        out.append(" ");
        out.append(pad_left(source.as_str(), 21).as_str());
        out.append(" -> ");
        out.append(pad_right(destination.as_str(), 21).as_str());
        out.append(" ");
        out.append(pad_left(decimal(self.qid as u64).as_str(), 6).as_str());
        out.append(" ");
        out.append(pad_left(self.opcode.as_str(), 7).as_str());
        out.append("/");
        out.append(pad_right(self.qr.as_str(), 10).as_str());
        out.append(" ");
        out.append(pad_right(self.rcode.as_str(), 10).as_str());
        out.append("\t");
        if self.queries.len() > 0 {
            let mut parts: Vec<String> = Vec::new();
            let mut k: usize = 0;
            while k < self.queries.len()
                invariant
                    k <= self.queries.len(),
                    parts@.len() == k,
                    forall|j: int| 0 <= j < k ==> (#[trigger] parts@[j])@
                        == self.queries@[j]@.text(),
                decreases self.queries.len() - k,
            {
                parts.push(self.queries[k].to_text());
                k = k + 1;
            }
            assert(texts(parts@) =~= query_lines(self.queries@).map_values(
                |q: QueryLine| q.text(),
            ));
            let mut section = String::from_str("\tq:|");
            section.append(join_with(&parts, ", ").as_str());
            section.append("|");
            out.append(pad_right(section.as_str(), 40).as_str());
        } else {
            assert(out@ + Seq::<char>::empty() =~= out@);
        }
        out.append(record_section("\ta:|", &self.answers).as_str());
        out.append(record_section("\tns:|", &self.nsrecords).as_str());
        out.append(record_section("\tar:|", &self.arecords).as_str());
        out
    }
}

} // verus!
