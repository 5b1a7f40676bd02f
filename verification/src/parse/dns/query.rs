//! The entries of a message's question section.

use crate::parse::dns::compressed_name::{
    lemma_chain_within, parse_compressed_chain, spec_chain, CompressedNameChain, NameChain,
};
use crate::parse::dns::dns_parameters::{
    parse_dnsclass, parse_dnstype, spec_parse_dnsclass, spec_parse_dnstype, DnsClass, DnsType,
};
use crate::parse::dns::wire::DecodeError;
use vstd::prelude::*;

verus! {

/// One question: a name, and the type and class asked for.
#[derive(Debug, PartialEq)]
pub struct Query<'a> {
    pub name_chain: CompressedNameChain<'a>,
    pub qtype: DnsType,
    pub qclass: DnsClass,
}

/// A question as a mathematical value.
pub struct QueryData {
    pub name_chain: NameChain,
    pub qtype: DnsType,
    pub qclass: DnsClass,
}

impl<'a> View for Query<'a> {
    type V = QueryData;

    open spec fn view(&self) -> QueryData {
        QueryData { name_chain: self.name_chain@, qtype: self.qtype, qclass: self.qclass }
    }
}

/// The question at the front of `i`: a name, a type and a class.
pub open spec fn spec_parse_query(i: Seq<u8>) -> Result<(QueryData, int), DecodeError> {
    match spec_chain(i) {
        Err(e) => Err(e),
        Ok((name_chain, n1)) => match spec_parse_dnstype(i.skip(n1)) {
            Err(e) => Err(e),
            Ok((qtype, n2)) => match spec_parse_dnsclass(i.skip(n1 + n2)) {
                Err(e) => Err(e),
                Ok((qclass, n3)) => Ok((QueryData { name_chain, qtype, qclass }, n1 + n2 + n3)),
            },
        },
    }
}

/// Reads one question.
pub fn parse_query<'a>(i: &'a [u8]) -> (r: Result<(&'a [u8], Query<'a>), DecodeError>)
    ensures
        (match spec_parse_query(i@) {
            Ok((v, n)) => r is Ok && r->Ok_0.0@ == i@.skip(n) && r->Ok_0.1@ == v,
            Err(e) => r is Err && r->Err_0 == e,
        }),
{
    let (rest1, name_chain) = match parse_compressed_chain(i) {
        Ok(v) => v,
        Err(e) => {
            return Err(e);
        },
    };
    let ghost n1 = spec_chain(i@)->Ok_0.1;
    proof {
        lemma_chain_within(i@);
    }
    let (rest2, qtype) = match parse_dnstype(rest1) {
        Ok(v) => v,
        Err(e) => {
            return Err(e);
        },
    };
    assert(rest2@ =~= i@.skip(n1 + 2));
    let (rest3, qclass) = match parse_dnsclass(rest2) {
        Ok(v) => v,
        Err(e) => {
            return Err(e);
        },
    };
    assert(rest3@ =~= i@.skip(n1 + 4));
    Ok((rest3, Query { name_chain, qtype, qclass }))
}

} // verus!
