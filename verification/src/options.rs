//! What the logger is asked to do, and what follows from it.

use vstd::prelude::*;

verus! {

/// How decoded packets are written out.
#[derive(Clone, Copy, Debug, PartialEq, Eq)]
pub enum OutputFormat {
    Text,
    Json,
}

/// The settings of one run.
#[derive(Clone, Debug, PartialEq)]
pub struct Options {
    /// How much to log: 0 is silent, every step up says more.
    pub loglevel: u8,
    /// A file of captured packets to read.
    pub pcap_file: Option<String>,
    /// An interface to listen on.
    pub interface: Option<String>,
    /// The output format.
    pub output_format: OutputFormat,
    /// The capture filter.
    pub bpf_expression: String,
}

/// Where the packets come from.
#[derive(Clone, Copy, Debug, PartialEq)]
pub enum PacketSource<'a> {
    File(&'a str),
    Interface(&'a str),
    Nowhere,
}

/// A packet source as a mathematical value.
pub enum PacketSourceData {
    File(Seq<char>),
    Interface(Seq<char>),
    Nowhere,
}

impl<'a> View for PacketSource<'a> {
    type V = PacketSourceData;

    open spec fn view(&self) -> PacketSourceData {
        match *self {
            PacketSource::File(name) => PacketSourceData::File(name@),
            PacketSource::Interface(name) => PacketSourceData::Interface(name@),
            PacketSource::Nowhere => PacketSourceData::Nowhere,
        }
    }
}

/// The log filter for a verbosity, or none for verbosity 0.
pub open spec fn spec_log_filter(loglevel: u8) -> Option<Seq<char>> {
    if loglevel == 0 {
        None
    } else if loglevel == 1 {
        Some("dnslogger=info"@)
    } else if loglevel == 2 {
        Some("dnslogger=debug"@)
    } else if loglevel == 3 {
        Some("dnslogger=debug,parse=debug"@)
    } else {
        Some("debug"@)
    }
}

/// The log filter to set for a verbosity where the environment gives none.
pub fn log_filter(loglevel: u8) -> (r: Option<&'static str>)
    ensures
        (match spec_log_filter(loglevel) {
            Some(text) => r is Some && r->Some_0@ == text,
            None => r is None,
        }),
{
    match loglevel {
        0 => None,
        1 => Some("dnslogger=info"),
        2 => Some("dnslogger=debug"),
        3 => Some("dnslogger=debug,parse=debug"),
        _ => Some("debug"),
    }
}

impl Options {
    /// The source that the settings name: the file if there is one, else
    /// the interface if there is one.
    pub open spec fn spec_source(self) -> PacketSourceData {
        match (self.pcap_file, self.interface) {
            (Some(file), _) => PacketSourceData::File(file@),
            (None, Some(interface)) => PacketSourceData::Interface(interface@),
            (None, None) => PacketSourceData::Nowhere,
        }
    }

    /// Where to take packets from.
    pub fn source(&self) -> (r: PacketSource<'_>)
        ensures
            r@ == self.spec_source(),
    {
        match &self.pcap_file {
            Some(file) => PacketSource::File(file.as_str()),
            None => match &self.interface {
                Some(interface) => PacketSource::Interface(interface.as_str()),
                None => PacketSource::Nowhere,
            },
        }
    }
}

} // verus!
