//! The ways in which a run fails.

use vstd::prelude::*;

verus! {

/// The category of a failure.
#[derive(Clone, Copy, Debug, PartialEq, Eq, Structural, Hash)]
pub enum ErrorKind {
    /// The link to the interface could not be opened.
    ChannelCreation,
    /// A frame could not be sent.
    Transmit,
    /// Reading from the link failed. That nothing matching came in time is
    /// no such failure.
    Receive,
    /// No answer came within the time allowed.
    ResolutionTimeout,
    /// The interface, its hardware address or its IPv4 address is missing.
    Configuration,
}

/// A failure. Each one ends the run; nothing is tried again.
#[derive(Clone, Copy, Debug, PartialEq, Eq, Structural, Hash)]
pub enum Error {
    /// No interface was named and none is up and no loopback.
    NoInterface,
    /// The link to the interface could not be opened.
    ChannelCreation,
    /// The interface has no hardware address.
    NoMacAddress,
    /// The interface has no IPv4 address.
    NoIpv4Address,
    /// The request of a resolution could not be sent.
    ResolveTransmit,
    /// Reading failed while a resolution waited for its answer.
    ResolveReceive,
    /// A resolution got no answer within the time allowed.
    ResolveTimeout,
    /// A spoofed reply could not be sent.
    SpoofTransmit,
    /// The corrective reply could not be sent.
    DespoofTransmit,
}

impl Error {
    pub open spec fn spec_kind(&self) -> ErrorKind {
        match self {
            Error::NoInterface => ErrorKind::Configuration,
            Error::ChannelCreation => ErrorKind::ChannelCreation,
            Error::NoMacAddress => ErrorKind::Configuration,
            Error::NoIpv4Address => ErrorKind::Configuration,
            Error::ResolveTransmit => ErrorKind::Transmit,
            Error::ResolveReceive => ErrorKind::Receive,
            Error::ResolveTimeout => ErrorKind::ResolutionTimeout,
            Error::SpoofTransmit => ErrorKind::Transmit,
            Error::DespoofTransmit => ErrorKind::Transmit,
        }
    }

    /// The category of the failure.
    #[verifier::when_used_as_spec(spec_kind)]
    pub fn kind(&self) -> (kind: ErrorKind)
        ensures
            kind == self.spec_kind(),
    {
        match self {
            Error::NoInterface => ErrorKind::Configuration,
            Error::ChannelCreation => ErrorKind::ChannelCreation,
            Error::NoMacAddress => ErrorKind::Configuration,
            Error::NoIpv4Address => ErrorKind::Configuration,
            Error::ResolveTransmit => ErrorKind::Transmit,
            Error::ResolveReceive => ErrorKind::Receive,
            Error::ResolveTimeout => ErrorKind::ResolutionTimeout,
            Error::SpoofTransmit => ErrorKind::Transmit,
            Error::DespoofTransmit => ErrorKind::Transmit,
        }
    }

    /// The diagnostic of each failure.
    pub open spec fn spec_message(&self) -> Seq<char> {
        match self {
            Error::NoInterface => "No usable network interface found"@,
            Error::ChannelCreation => "Failed to create ARP client"@,
            Error::NoMacAddress => "No MAC address found on interface"@,
            Error::NoIpv4Address => "No IPv4 address found on interface"@,
            Error::ResolveTransmit => "Failed resolution"@,
            Error::ResolveReceive => "Failed resolution"@,
            Error::ResolveTimeout => "Failed resolution"@,
            Error::SpoofTransmit => "Failed to spoof"@,
            Error::DespoofTransmit => "Failed to despoof"@,
        }
    }

    /// A short diagnostic for the user.
    pub fn message(&self) -> (text: &'static str)
        ensures
            text@ == self.spec_message(),
    {
        match self {
            Error::NoInterface => "No usable network interface found",
            Error::ChannelCreation => "Failed to create ARP client",
            Error::NoMacAddress => "No MAC address found on interface",
            Error::NoIpv4Address => "No IPv4 address found on interface",
            Error::ResolveTransmit => "Failed resolution",
            Error::ResolveReceive => "Failed resolution",
            Error::ResolveTimeout => "Failed resolution",
            Error::SpoofTransmit => "Failed to spoof",
            Error::DespoofTransmit => "Failed to despoof",
        }
    }
}

} // verus!
