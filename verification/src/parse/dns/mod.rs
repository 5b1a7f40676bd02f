//! The DNS wire-format decoder.

pub mod compressed_name;
pub mod dns_message;
pub mod dns_parameters;
pub mod name_proofs;
pub mod printer;
pub mod query;
pub mod record_text;
pub mod resource_record;
pub mod text;
pub mod wire;

pub use crate::parse::dns::compressed_name::{
    parse_compressed_chain, parse_compressed_token, CompressedName, CompressedNameChain,
};
pub use crate::parse::dns::dns_message::{
    dns_message, parse_dns_header, parse_dns_message, DnsHeader, DnsMessage,
};
pub use crate::parse::dns::dns_parameters::{
    decode_flags, dnsclass_of, encode_flags, parse_dnsclass, parse_dnstype, parse_flags, DnsClass, DnsType,
    Flags, Opcode, Qr, Rcode,
};
pub use crate::parse::dns::printer::{
    copy_record, PacketInfo, PacketPrinter, QueryPrinter, ResourceRecordPrinter,
};
pub use crate::parse::dns::query::{parse_query, Query};
pub use crate::parse::dns::record_text::{ipv4_to_text, ipv6_to_text};
pub use crate::parse::dns::resource_record::{
    parse_edns_option, parse_resource_record, AAAARecord, ARecord, CNameRecord,
    EdnsOption, MxRecord, NsRecord, OptRecord, OptionCookie, PtrRecord, RRecordTypes,
    ResourceRecord, SoaRecord, SrvRecord, TxtRecord,
};
pub use crate::parse::dns::wire::{be_u128, be_u16, be_u32, be_u8, take, DecodeError};
