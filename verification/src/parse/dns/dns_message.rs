//! Whole messages: the header and the four sections.

use crate::parse::dns::compressed_name::spec_resolved;
use crate::parse::dns::dns_parameters::{parse_flags, spec_flags, Flags};
use crate::parse::dns::query::{parse_query, spec_parse_query, Query, QueryData};
use crate::parse::dns::resource_record::{
    parse_resource_record, spec_parse_resource_record, spec_resolve_record, ResourceRecord,
    ResourceRecordData,
};
use crate::parse::dns::wire::{be_u16, spec_uint, DecodeError};
use vstd::prelude::*;

verus! {

/// The fixed header of a message.
#[derive(Clone, Copy, Debug, PartialEq, Eq)]
pub struct DnsHeader {
    pub id: u16,
    pub flags: Flags,
    pub qdcount: u16,
    pub ancount: u16,
    pub nscount: u16,
    pub arcount: u16,
}

/// A decoded message.
#[derive(Debug, PartialEq)]
pub struct DnsMessage<'a> {
    pub header: DnsHeader,
    pub queries: Vec<Query<'a>>,
    pub answers: Vec<ResourceRecord<'a>>,
    pub nsrecords: Vec<ResourceRecord<'a>>,
    pub arecords: Vec<ResourceRecord<'a>>,
}

/// A message as a mathematical value.
pub struct MessageData {
    pub header: DnsHeader,
    pub queries: Seq<QueryData>,
    pub answers: Seq<ResourceRecordData>,
    pub nsrecords: Seq<ResourceRecordData>,
    pub arecords: Seq<ResourceRecordData>,
}

/// The queries as mathematical values.
pub open spec fn queries_view(v: Seq<Query>) -> Seq<QueryData> {
    v.map_values(|q: Query| q@)
}

/// The records as mathematical values.
pub open spec fn records_view(v: Seq<ResourceRecord>) -> Seq<ResourceRecordData> {
    v.map_values(|r: ResourceRecord| r@)
}

impl<'a> View for DnsMessage<'a> {
    type V = MessageData;

    open spec fn view(&self) -> MessageData {
        MessageData {
            header: self.header,
            queries: queries_view(self.queries@),
            answers: records_view(self.answers@),
            nsrecords: records_view(self.nsrecords@),
            arecords: records_view(self.arecords@),
        }
    }
}

impl MessageData {
    /// Every section is as long as the header says.
    pub open spec fn wf(self) -> bool {
        &&& self.queries.len() == self.header.qdcount
        &&& self.answers.len() == self.header.ancount
        &&& self.nsrecords.len() == self.header.nscount
        &&& self.arecords.len() == self.header.arcount
    }
}

/// The header at the front of `i`: the id, the flag word and the four
/// counts, 16 bits each.
pub open spec fn spec_parse_dns_header(i: Seq<u8>) -> Result<(DnsHeader, int), DecodeError> {
    if i.len() < 12 {
        Err(DecodeError::Incomplete(2))
    } else {
        Ok(
            (
                DnsHeader {
                    id: spec_uint(i, 2)->Ok_0.0 as u16,
                    flags: spec_flags(spec_uint(i.skip(2), 2)->Ok_0.0 as u16),
                    qdcount: spec_uint(i.skip(4), 2)->Ok_0.0 as u16,
                    ancount: spec_uint(i.skip(6), 2)->Ok_0.0 as u16,
                    nscount: spec_uint(i.skip(8), 2)->Ok_0.0 as u16,
                    arcount: spec_uint(i.skip(10), 2)->Ok_0.0 as u16,
                },
                12,
            ),
        )
    }
}

/// `count` queries in a row at the front of `i`.
pub open spec fn spec_queries(i: Seq<u8>, count: nat) -> Result<(Seq<QueryData>, int), DecodeError>
    decreases count,
{
    if count == 0 {
        Ok((Seq::empty(), 0))
    } else {
        match spec_parse_query(i) {
            Err(e) => Err(e),
            Ok((q, n)) => match spec_queries(i.skip(n), (count - 1) as nat) {
                Err(e) => Err(e),
                Ok((qs, m)) => Ok((seq![q] + qs, n + m)),
            },
        }
    }
}

/// `count` records in a row at the front of `i`.
pub open spec fn spec_records(i: Seq<u8>, count: nat) -> Result<
    (Seq<ResourceRecordData>, int),
    DecodeError,
>
    decreases count,
{
    if count == 0 {
        Ok((Seq::empty(), 0))
    } else {
        match spec_parse_resource_record(i) {
            Err(e) => Err(e),
            Ok((r, n)) => match spec_records(i.skip(n), (count - 1) as nat) {
                Err(e) => Err(e),
                Ok((rs, m)) => Ok((seq![r] + rs, n + m)),
            },
        }
    }
}

/// The message at the front of `i`, as it stands on the wire: the header,
/// then as many queries, answers, authority records and additional records
/// as the header counts, in that order. No name is resolved and no data
/// decoded.
pub open spec fn spec_parse_dns_message(i: Seq<u8>) -> Result<(MessageData, int), DecodeError> {
    match spec_parse_dns_header(i) {
        Err(e) => Err(e),
        Ok((header, n0)) => match spec_queries(i.skip(n0), header.qdcount as nat) {
            Err(e) => Err(e),
            Ok((queries, n1)) => match spec_records(i.skip(n0 + n1), header.ancount as nat) {
                Err(e) => Err(e),
                Ok((answers, n2)) => match spec_records(
                    i.skip(n0 + n1 + n2),
                    header.nscount as nat,
                ) {
                    Err(e) => Err(e),
                    Ok((nsrecords, n3)) => match spec_records(
                        i.skip(n0 + n1 + n2 + n3),
                        header.arcount as nat,
                    ) {
                        Err(e) => Err(e),
                        Ok((arecords, n4)) => Ok(
                            (
                                MessageData { header, queries, answers, nsrecords, arecords },
                                n0 + n1 + n2 + n3 + n4,
                            ),
                        ),
                    },
                },
            },
        }
    }
}

/// A query with its name resolved against `msg`.
pub open spec fn spec_resolve_query(q: QueryData, msg: Seq<u8>) -> QueryData {
    QueryData {
        name_chain: spec_resolved(q.name_chain, 0, msg),
        qtype: q.qtype,
        qclass: q.qclass,
    }
}

/// The queries with their names resolved against `msg`.
pub open spec fn spec_resolve_queries(qs: Seq<QueryData>, msg: Seq<u8>) -> Seq<QueryData> {
    qs.map_values(|q: QueryData| spec_resolve_query(q, msg))
}

/// The records resolved against `msg`, or the error of the first whose
/// data cannot be decoded.
pub open spec fn spec_resolve_records(rs: Seq<ResourceRecordData>, msg: Seq<u8>) -> Result<
    Seq<ResourceRecordData>,
    DecodeError,
>
    decreases rs.len(),
{
    if rs.len() == 0 {
        Ok(Seq::empty())
    } else {
        match spec_resolve_records(rs.drop_last(), msg) {
            Err(e) => Err(e),
            Ok(done) => match spec_resolve_record(rs.last(), msg).1 {
                Err(e) => Err(e),
                Ok(_) => Ok(done.push(spec_resolve_record(rs.last(), msg).0)),
            },
        }
    }
}

/// The message that `data` holds, and the bytes it takes.
///
/// The message is read as it stands on the wire; then the names of the
/// queries are resolved, and, where `resolve` is set, the answers, the
/// authority records and the additional records, in that order. Input that
/// ends too early, and data of a record that cannot be decoded, is an
/// error.
pub open spec fn spec_dns_message(data: Seq<u8>, resolve: bool) -> Result<
    (MessageData, int),
    DecodeError,
> {
    match spec_parse_dns_message(data) {
        Err(e) => Err(e),
        Ok((m, n)) => {
            let queries = spec_resolve_queries(m.queries, data);
            if !resolve {
                Ok(
                    (
                        MessageData {
                            header: m.header,
                            queries,
                            answers: m.answers,
                            nsrecords: m.nsrecords,
                            arecords: m.arecords,
                        },
                        n,
                    ),
                )
            } else {
                match spec_resolve_records(m.answers, data) {
                    Err(e) => Err(e),
                    Ok(answers) => match spec_resolve_records(m.nsrecords, data) {
                        Err(e) => Err(e),
                        Ok(nsrecords) => match spec_resolve_records(m.arecords, data) {
                            Err(e) => Err(e),
                            Ok(arecords) => Ok(
                                (
                                    MessageData {
                                        header: m.header,
                                        queries,
                                        answers,
                                        nsrecords,
                                        arecords,
                                    },
                                    n,
                                ),
                            ),
                        },
                    },
                }
            }
        },
    }
}

/// Reads the header.
pub fn parse_dns_header(i: &[u8]) -> (r: Result<(&[u8], DnsHeader), DecodeError>)
    ensures
        (match spec_parse_dns_header(i@) {
            Ok((v, n)) => r is Ok && r->Ok_0.0@ == i@.skip(n) && r->Ok_0.1 == v,
            Err(e) => r is Err && r->Err_0 == e,
        }),
{
    let (rest1, id) = match be_u16(i) {
        Ok(v) => v,
        Err(e) => {
            return Err(e);
        },
    };
    let (rest2, flags) = match parse_flags(rest1) {
        Ok(v) => v,
        Err(e) => {
            return Err(e);
        },
    };
    assert(rest2@ =~= i@.skip(4));
    let (rest3, qdcount) = match be_u16(rest2) {
        Ok(v) => v,
        Err(e) => {
            return Err(e);
        },
    };
    assert(rest3@ =~= i@.skip(6));
    let (rest4, ancount) = match be_u16(rest3) {
        Ok(v) => v,
        Err(e) => {
            return Err(e);
        },
    };
    assert(rest4@ =~= i@.skip(8));
    let (rest5, nscount) = match be_u16(rest4) {
        Ok(v) => v,
        Err(e) => {
            return Err(e);
        },
    };
    assert(rest5@ =~= i@.skip(10));
    let (rest6, arcount) = match be_u16(rest5) {
        Ok(v) => v,
        Err(e) => {
            return Err(e);
        },
    };
    assert(rest6@ =~= i@.skip(12));
    Ok((rest6, DnsHeader { id, flags, qdcount, ancount, nscount, arcount }))
}

/// Puts queries already read in front of what the rest of the input gives.
spec fn spec_queries_after(
    done: Seq<QueryData>,
    used: int,
    rest: Result<(Seq<QueryData>, int), DecodeError>,
) -> Result<(Seq<QueryData>, int), DecodeError> {
    match rest {
        Err(e) => Err(e),
        Ok((qs, m)) => Ok((done + qs, used + m)),
    }
}

/// Puts records already read in front of what the rest of the input gives.
spec fn spec_records_after(
    done: Seq<ResourceRecordData>,
    used: int,
    rest: Result<(Seq<ResourceRecordData>, int), DecodeError>,
) -> Result<(Seq<ResourceRecordData>, int), DecodeError> {
    match rest {
        Err(e) => Err(e),
        Ok((rs, m)) => Ok((done + rs, used + m)),
    }
}

/// The bytes that a query takes lie within the input.
pub proof fn lemma_query_within(i: Seq<u8>)
    ensures
        spec_parse_query(i) is Ok ==> 0 < spec_parse_query(i)->Ok_0.1 <= i.len(),
{
    crate::parse::dns::compressed_name::lemma_chain_within(i);
}

/// The bytes that a record takes lie within the input.
pub proof fn lemma_record_within(i: Seq<u8>)
    ensures
        spec_parse_resource_record(i) is Ok ==> 0 < spec_parse_resource_record(i)->Ok_0.1
            <= i.len(),
{
    crate::parse::dns::compressed_name::lemma_chain_within(i);
}

/// Reads `count` queries.
fn parse_queries<'a>(i: &'a [u8], count: u16) -> (r: Result<
    (&'a [u8], Vec<Query<'a>>),
    DecodeError,
>)
    ensures
        (match spec_queries(i@, count as nat) {
            Ok((v, n)) => r is Ok && r->Ok_0.0@ == i@.skip(n) && queries_view(r->Ok_0.1@) == v
                && v.len() == count && 0 <= n <= i@.len(),
            Err(e) => r is Err && r->Err_0 == e,
        }),
{
    let mut out: Vec<Query<'a>> = Vec::new();
    let mut rest = i;
    let mut k: u16 = 0;
    let ghost mut used: int = 0;
    assert(i@.skip(0) =~= i@);
    assert(queries_view(out@) =~= Seq::<QueryData>::empty());
    assert(Seq::<QueryData>::empty() + spec_queries(i@, count as nat)->Ok_0.0 =~= spec_queries(
        i@,
        count as nat,
    )->Ok_0.0);
    while k < count
        invariant
            k <= count,
            out@.len() == k,
            0 <= used <= i@.len(),
            rest@ == i@.skip(used),
            spec_queries(i@, count as nat) == spec_queries_after(
                queries_view(out@),
                used,
                spec_queries(rest@, (count - k) as nat),
            ),
        decreases count - k,
    {
        let ghost before = queries_view(out@);
        let (after, q) = match parse_query(rest) {
            Ok(v) => v,
            Err(e) => {
                return Err(e);
            },
        };
        let ghost step = spec_parse_query(rest@)->Ok_0.1;
        let ghost qv = q@;
        proof {
            lemma_query_within(rest@);
            assert(after@ =~= i@.skip(used + step));
        }
        out.push(q);
        proof {
            assert(queries_view(out@) =~= before.push(qv));
            assert forall|tail: Seq<QueryData>| before + (seq![qv] + tail) == before.push(qv)
                + tail by {
                assert(before + (seq![qv] + tail) =~= before.push(qv) + tail);
            }
            used = used + step;
        }
        rest = after;
        k = k + 1;
    }
    assert(queries_view(out@) + Seq::<QueryData>::empty() =~= queries_view(out@));
    Ok((rest, out))
}

/// Reads `count` records.
fn parse_records<'a>(i: &'a [u8], count: u16) -> (r: Result<
    (&'a [u8], Vec<ResourceRecord<'a>>),
    DecodeError,
>)
    ensures
        (match spec_records(i@, count as nat) {
            Ok((v, n)) => r is Ok && r->Ok_0.0@ == i@.skip(n) && records_view(r->Ok_0.1@) == v
                && v.len() == count && 0 <= n <= i@.len(),
            Err(e) => r is Err && r->Err_0 == e,
        }),
{
    let mut out: Vec<ResourceRecord<'a>> = Vec::new();
    let mut rest = i;
    let mut k: u16 = 0;
    let ghost mut used: int = 0;
    assert(i@.skip(0) =~= i@);
    assert(records_view(out@) =~= Seq::<ResourceRecordData>::empty());
    assert(Seq::<ResourceRecordData>::empty() + spec_records(i@, count as nat)->Ok_0.0
        =~= spec_records(i@, count as nat)->Ok_0.0);
    while k < count
        invariant
            k <= count,
            out@.len() == k,
            0 <= used <= i@.len(),
            rest@ == i@.skip(used),
            spec_records(i@, count as nat) == spec_records_after(
                records_view(out@),
                used,
                spec_records(rest@, (count - k) as nat),
            ),
        decreases count - k,
    {
        let ghost before = records_view(out@);
        let (after, rr) = match parse_resource_record(rest) {
            Ok(v) => v,
            Err(e) => {
                return Err(e);
            },
        };
        let ghost step = spec_parse_resource_record(rest@)->Ok_0.1;
        let ghost rv = rr@;
        proof {
            lemma_record_within(rest@);
            assert(after@ =~= i@.skip(used + step));
        }
        out.push(rr);
        proof {
            assert(records_view(out@) =~= before.push(rv));
            assert forall|tail: Seq<ResourceRecordData>|
                before + (seq![rv] + tail) == before.push(rv) + tail by {
                assert(before + (seq![rv] + tail) =~= before.push(rv) + tail);
            }
            used = used + step;
        }
        rest = after;
        k = k + 1;
    }
    assert(records_view(out@) + Seq::<ResourceRecordData>::empty() =~= records_view(out@));
    Ok((rest, out))
}

/// Reads a message as it stands on the wire.
pub fn parse_dns_message<'a>(i: &'a [u8]) -> (r: Result<(&'a [u8], DnsMessage<'a>), DecodeError>)
    ensures
        (match spec_parse_dns_message(i@) {
            Ok((v, n)) => r is Ok && r->Ok_0.0@ == i@.skip(n) && r->Ok_0.1@ == v && v.wf(),
            Err(e) => r is Err && r->Err_0 == e,
        }),
{
    let (rest0, header) = match parse_dns_header(i) {
        Ok(v) => v,
        Err(e) => {
            return Err(e);
        },
    };
    let (rest1, queries) = match parse_queries(rest0, header.qdcount) {
        Ok(v) => v,
        Err(e) => {
            return Err(e);
        },
    };
    let ghost n1 = spec_queries(rest0@, header.qdcount as nat)->Ok_0.1;
    assert(rest1@ =~= i@.skip(12 + n1));
    let (rest2, answers) = match parse_records(rest1, header.ancount) {
        Ok(v) => v,
        Err(e) => {
            return Err(e);
        },
    };
    let ghost n2 = spec_records(rest1@, header.ancount as nat)->Ok_0.1;
    assert(rest2@ =~= i@.skip(12 + n1 + n2));
    let (rest3, nsrecords) = match parse_records(rest2, header.nscount) {
        Ok(v) => v,
        Err(e) => {
            return Err(e);
        },
    };
    let ghost n3 = spec_records(rest2@, header.nscount as nat)->Ok_0.1;
    assert(rest3@ =~= i@.skip(12 + n1 + n2 + n3));
    let (rest4, arecords) = match parse_records(rest3, header.arcount) {
        Ok(v) => v,
        Err(e) => {
            return Err(e);
        },
    };
    let ghost n4 = spec_records(rest3@, header.arcount as nat)->Ok_0.1;
    assert(rest4@ =~= i@.skip(12 + n1 + n2 + n3 + n4));
    Ok((rest4, DnsMessage { header, queries, answers, nsrecords, arecords }))
}

/// The bytes that queries take lie within the input.
pub proof fn lemma_queries_within(i: Seq<u8>, count: nat)
    ensures
        spec_queries(i, count) is Ok ==> 0 <= spec_queries(i, count)->Ok_0.1 <= i.len()
            && spec_queries(i, count)->Ok_0.0.len() == count,
    decreases count,
{
    if count > 0 && spec_parse_query(i) is Ok {
        lemma_query_within(i);
        lemma_queries_within(i.skip(spec_parse_query(i)->Ok_0.1), (count - 1) as nat);
    }
}

/// The bytes that records take lie within the input.
pub proof fn lemma_records_within(i: Seq<u8>, count: nat)
    ensures
        spec_records(i, count) is Ok ==> 0 <= spec_records(i, count)->Ok_0.1 <= i.len()
            && spec_records(i, count)->Ok_0.0.len() == count,
    decreases count,
{
    if count > 0 && spec_parse_resource_record(i) is Ok {
        lemma_record_within(i);
        lemma_records_within(i.skip(spec_parse_resource_record(i)->Ok_0.1), (count - 1) as nat);
    }
}

/// Where the resolution of some of the first records ends in an error, so
/// does that of all.
pub proof fn lemma_resolve_records_prefix_error(rs: Seq<ResourceRecordData>, k: int, msg: Seq<u8>)
    requires
        0 <= k <= rs.len(),
        spec_resolve_records(rs.take(k), msg) is Err,
    ensures
        spec_resolve_records(rs, msg) == spec_resolve_records(rs.take(k), msg),
    decreases rs.len() - k,
{
    if k < rs.len() {
        assert(rs.take(k + 1).drop_last() =~= rs.take(k));
        lemma_resolve_records_prefix_error(rs, k + 1, msg);
    } else {
        assert(rs.take(k) =~= rs);
    }
}

/// Resolved records are as many as there were.
pub proof fn lemma_resolve_records_len(rs: Seq<ResourceRecordData>, msg: Seq<u8>)
    ensures
        spec_resolve_records(rs, msg) is Ok ==> spec_resolve_records(rs, msg)->Ok_0.len()
            == rs.len(),
    decreases rs.len(),
{
    if rs.len() > 0 {
        lemma_resolve_records_len(rs.drop_last(), msg);
    }
}

/// Every resolved record holds decoded data.
pub proof fn lemma_resolved_records_hold_data(rs: Seq<ResourceRecordData>, msg: Seq<u8>)
    ensures
        spec_resolve_records(rs, msg) is Ok ==> forall|j: int|
            0 <= j < rs.len() ==> (#[trigger] spec_resolve_records(rs, msg)->Ok_0[j]).record
                is Some,
    decreases rs.len(),
{
    if rs.len() > 0 {
        lemma_resolved_records_hold_data(rs.drop_last(), msg);
        lemma_resolve_records_len(rs.drop_last(), msg);
    }
}

/// Resolves the name of every query.
fn resolve_queries<'a>(queries: &mut Vec<Query<'a>>, full_dns_message: &[u8])
    ensures
        queries_view(final(queries)@) == spec_resolve_queries(
            queries_view(old(queries)@),
            full_dns_message@,
        ),
{
    let ghost orig = queries_view(queries@);
    let mut k: usize = 0;
    while k < queries.len()
        invariant
            k <= queries.len(),
            queries@.len() == orig.len(),
            forall|j: int| 0 <= j < k ==> #[trigger] queries@[j]@ == spec_resolve_query(
                orig[j],
                full_dns_message@,
            ),
            forall|j: int| k <= j < queries@.len() ==> #[trigger] queries@[j]@ == orig[j],
        decreases queries.len() - k,
    {
        assert(queries@[k as int]@ == orig[k as int]);
        let q = &mut queries[k];
        q.name_chain.resolve_name(0, full_dns_message);
        k = k + 1;
    }
    assert(queries_view(queries@) =~= spec_resolve_queries(orig, full_dns_message@));
}

/// Resolves every record, up to the first whose data cannot be decoded.
fn resolve_records<'a>(records: &mut Vec<ResourceRecord<'a>>, full_dns_message: &[u8]) -> (r:
    Result<(), DecodeError>)
    ensures
        (match spec_resolve_records(records_view(old(records)@), full_dns_message@) {
            Ok(v) => r is Ok && records_view(final(records)@) == v,
            Err(e) => r is Err && r->Err_0 == e,
        }),
{
    let ghost orig = records_view(records@);
    let ghost mut done: Seq<ResourceRecordData> = Seq::empty();
    let mut k: usize = 0;
    assert(orig.take(0) =~= Seq::<ResourceRecordData>::empty());
    while k < records.len()
        invariant
            k <= records.len(),
            records@.len() == orig.len(),
            orig == records_view(old(records)@),
            done.len() == k,
            spec_resolve_records(orig.take(k as int), full_dns_message@) == Ok::<
                Seq<ResourceRecordData>,
                DecodeError,
            >(done),
            forall|j: int| 0 <= j < k ==> (#[trigger] records@[j])@ == done[j],
            forall|j: int| k <= j < records@.len() ==> (#[trigger] records@[j])@ == orig[j],
        decreases records.len() - k,
    {
        let ghost prev = records@;
        let ghost step = spec_resolve_record(orig[k as int], full_dns_message@);
        proof {
            assert(orig.take(k + 1).drop_last() =~= orig.take(k as int));
            assert(orig.take(k + 1).last() == orig[k as int]);
            assert(prev[k as int]@ == orig[k as int]);
        }
        let rr = &mut records[k];
        let outcome = rr.resolve(full_dns_message);
        match outcome {
            Ok(_) => {},
            Err(e) => {
                proof {
                    lemma_resolve_records_prefix_error(orig, k + 1, full_dns_message@);
                }
                return Err(e);
            },
        }
        proof {
            done = done.push(step.0);
        }
        k = k + 1;
    }
    assert(orig.take(k as int) =~= orig);
    assert(records_view(records@) =~= done);
    Ok(())
}

/// Decodes the message that `data` holds, and gives the bytes that follow
/// it.
///
/// The names of the queries are resolved. Where `resolve_resource_records`
/// is set, so are the names of the records, and their data is decoded.
pub fn dns_message<'a>(data: &'a [u8], resolve_resource_records: bool) -> (r: Result<
    (&'a [u8], DnsMessage<'a>),
    DecodeError,
>)
    ensures
        (match spec_dns_message(data@, resolve_resource_records) {
            Ok((v, n)) => r is Ok && r->Ok_0.0@ == data@.skip(n) && r->Ok_0.1@ == v && v.wf(),
            Err(e) => r is Err && r->Err_0 == e,
        }),
{
    let (rest, mut dns_message) = match parse_dns_message(data) {
        Ok(v) => v,
        Err(e) => {
            return Err(e);
        },
    };
    let ghost parsed = dns_message@;
    resolve_queries(&mut dns_message.queries, data);
    if resolve_resource_records {
        proof {
            lemma_resolve_records_len(parsed.answers, data@);
            lemma_resolve_records_len(parsed.nsrecords, data@);
            lemma_resolve_records_len(parsed.arecords, data@);
        }
        match resolve_records(&mut dns_message.answers, data) {
            Ok(_) => {},
            Err(e) => {
                return Err(e);
            },
        }
        match resolve_records(&mut dns_message.nsrecords, data) {
            Ok(_) => {},
            Err(e) => {
                return Err(e);
            },
        }
        match resolve_records(&mut dns_message.arecords, data) {
            Ok(_) => {},
            Err(e) => {
                return Err(e);
            },
        }
    }
    Ok((rest, dns_message))
}

/// Every section of a decoded message is as long as its header says.
pub proof fn lemma_sections_match_counts(data: Seq<u8>, resolve: bool)
    ensures
        spec_parse_dns_message(data) is Ok ==> spec_parse_dns_message(data)->Ok_0.0.wf(),
        spec_dns_message(data, resolve) is Ok ==> spec_dns_message(data, resolve)->Ok_0.0.wf(),
{
    if spec_parse_dns_message(data) is Ok {
        let header = spec_parse_dns_header(data)->Ok_0.0;
        let n1 = spec_queries(data.skip(12), header.qdcount as nat)->Ok_0.1;
        let n2 = spec_records(data.skip(12 + n1), header.ancount as nat)->Ok_0.1;
        let n3 = spec_records(data.skip(12 + n1 + n2), header.nscount as nat)->Ok_0.1;
        lemma_queries_within(data.skip(12), header.qdcount as nat);
        lemma_records_within(data.skip(12 + n1), header.ancount as nat);
        lemma_records_within(data.skip(12 + n1 + n2), header.nscount as nat);
        lemma_records_within(data.skip(12 + n1 + n2 + n3), header.arcount as nat);
        let m = spec_parse_dns_message(data)->Ok_0.0;
        lemma_resolve_records_len(m.answers, data);
        lemma_resolve_records_len(m.nsrecords, data);
        lemma_resolve_records_len(m.arecords, data);
    }
}

} // verus!
