//! Verification flags and the parameters of a verification.

use vstd::prelude::*;

use vstd::string::StringSliceAdditionalSpecFns;

use crate::error::{ErrorReason, ErrorStack};

verus! {

/// Flags that steer how an expected host name is matched against a
/// certificate's names.
#[derive(Clone, Copy, PartialEq, Eq, Structural, Debug)]
pub struct X509CheckFlags {
    pub bits: u32,
}

impl X509CheckFlags {
    pub const ALWAYS_CHECK_SUBJECT: u32 = 0x1;
    pub const NO_WILDCARDS: u32 = 0x2;
    pub const NO_PARTIAL_WILDCARDS: u32 = 0x4;
    pub const MULTI_LABEL_WILDCARDS: u32 = 0x8;
    pub const SINGLE_LABEL_SUBDOMAINS: u32 = 0x10;
    pub const NEVER_CHECK_SUBJECT: u32 = 0x20;

    pub fn from_bits(bits: u32) -> (r: X509CheckFlags)
        ensures
            r.bits == bits,
    {
        X509CheckFlags { bits }
    }

    pub fn empty() -> (r: X509CheckFlags)
        ensures
            r.bits == 0,
    {
        X509CheckFlags { bits: 0 }
    }

    pub fn bits(&self) -> (r: u32)
        ensures
            r == self.bits,
    {
        self.bits
    }

    pub fn union(self, other: X509CheckFlags) -> (r: X509CheckFlags)
        ensures
            r.bits == self.bits | other.bits,
    {
        X509CheckFlags { bits: self.bits | other.bits }
    }

    pub fn contains(&self, other: X509CheckFlags) -> (r: bool)
        ensures
            r == (self.bits & other.bits == other.bits),
    {
        self.bits & other.bits == other.bits
    }
}

/// Flags that change how a certificate chain is built and checked.
///
/// Verification reads `USE_CHECK_TIME`, `NO_CHECK_TIME`, `CRL_CHECK`,
/// `CRL_CHECK_ALL`, `TRUSTED_FIRST`, `PARTIAL_CHAIN` and `NO_ALT_CHAINS`.
/// The others are kept in the flag word and change no outcome: a
/// certificate here holds no policy, extension, proxy or Suite B data for
/// them to act on.
#[derive(Clone, Copy, PartialEq, Eq, Structural, Debug)]
pub struct X509VerifyFlags {
    pub bits: u64,
}

impl X509VerifyFlags {
    pub const CB_ISSUER_CHECK: u64 = 0x0;
    pub const USE_CHECK_TIME: u64 = 0x2;
    pub const CRL_CHECK: u64 = 0x4;
    pub const CRL_CHECK_ALL: u64 = 0x8;
    pub const IGNORE_CRITICAL: u64 = 0x10;
    pub const X509_STRICT: u64 = 0x20;
    pub const ALLOW_PROXY_CERTS: u64 = 0x40;
    pub const POLICY_CHECK: u64 = 0x80;
    pub const EXPLICIT_POLICY: u64 = 0x100;
    pub const INHIBIT_ANY: u64 = 0x200;
    pub const INHIBIT_MAP: u64 = 0x400;
    pub const NOTIFY_POLICY: u64 = 0x800;
    pub const EXTENDED_CRL_SUPPORT: u64 = 0x1000;
    pub const USE_DELTAS: u64 = 0x2000;
    pub const CHECK_SS_SIGNATURE: u64 = 0x4000;
    pub const TRUSTED_FIRST: u64 = 0x8000;
    pub const SUITEB_128_LOS_ONLY: u64 = 0x10000;
    pub const SUITEB_192_LOS: u64 = 0x20000;
    pub const SUITEB_128_LOS: u64 = 0x30000;
    pub const PARTIAL_CHAIN: u64 = 0x80000;
    pub const NO_ALT_CHAINS: u64 = 0x100000;
    pub const NO_CHECK_TIME: u64 = 0x200000;

    pub fn from_bits(bits: u64) -> (r: X509VerifyFlags)
        ensures
            r.bits == bits,
    {
        X509VerifyFlags { bits }
    }

    pub fn empty() -> (r: X509VerifyFlags)
        ensures
            r.bits == 0,
    {
        X509VerifyFlags { bits: 0 }
    }

    pub fn bits(&self) -> (r: u64)
        ensures
            r == self.bits,
    {
        self.bits
    }

    pub fn union(self, other: X509VerifyFlags) -> (r: X509VerifyFlags)
        ensures
            r.bits == self.bits | other.bits,
    {
        X509VerifyFlags { bits: self.bits | other.bits }
    }

    pub fn difference(self, other: X509VerifyFlags) -> (r: X509VerifyFlags)
        ensures
            r.bits == self.bits & !other.bits,
    {
        X509VerifyFlags { bits: self.bits & !other.bits }
    }

    pub fn contains(&self, other: X509VerifyFlags) -> (r: bool)
        ensures
            r == (self.bits & other.bits == other.bits),
    {
        self.bits & other.bits == other.bits
    }
}

pub open spec fn has_nul(b: Seq<u8>) -> bool {
    exists|i: int| 0 <= i < b.len() && b[i] == 0u8
}

pub open spec fn has_flag(flags: u64, bit: u64) -> bool {
    flags & bit != 0
}

/// The library's depth limit where none was set.
pub const DEFAULT_DEPTH: usize = 100;

/// The parameters as plain values.
pub struct ParamView {
    pub flags: u64,
    pub hostflags: u32,
    pub host: Option<Seq<u8>>,
    pub ip: Option<Seq<u8>>,
    pub time: i64,
    pub depth: isize,
}

pub open spec fn default_param() -> ParamView {
    ParamView { flags: 0, hostflags: 0, host: None, ip: None, time: 0, depth: -1isize }
}

/// The options of one verification: flags, expected host and address,
/// the instant to check validity at, and the maximum chain depth.
pub struct X509VerifyParam {
    flags: u64,
    hostflags: u32,
    host: Option<Vec<u8>>,
    ip: Option<Vec<u8>>,
    time: i64,
    depth: isize,
}

/// The parameters in force: those of the call where it sets them, else the
/// defaults; flags of both apply.
pub open spec fn effective_param(defaults: ParamView, call: Option<ParamView>) -> ParamView {
    match call {
        None => defaults,
        Some(p) => ParamView {
            flags: defaults.flags | p.flags,
            hostflags: if p.hostflags != 0 { p.hostflags } else { defaults.hostflags },
            host: if p.host is Some { p.host } else { defaults.host },
            ip: if p.ip is Some { p.ip } else { defaults.ip },
            time: if has_flag(p.flags, X509VerifyFlags::USE_CHECK_TIME) { p.time } else { defaults.time },
            depth: if p.depth >= 0 { p.depth } else { defaults.depth },
        },
    }
}

pub open spec fn opt_bytes_view(o: Option<Vec<u8>>) -> Option<Seq<u8>> {
    match o {
        Some(v) => Some(v@),
        None => None,
    }
}

impl View for X509VerifyParam {
    type V = ParamView;

    closed spec fn view(&self) -> ParamView {
        ParamView {
            flags: self.flags,
            hostflags: self.hostflags,
            host: opt_bytes_view(self.host),
            ip: opt_bytes_view(self.ip),
            time: self.time,
            depth: self.depth,
        }
    }
}

pub(crate) fn copy_bytes(b: &[u8]) -> (r: Vec<u8>)
    ensures
        r@ == b@,
{
    let mut r: Vec<u8> = Vec::new();
    let mut i: usize = 0;
    while i < b.len()
        invariant
            i <= b@.len(),
            r@ == b@.subrange(0, i as int),
        decreases b@.len() - i,
    {
        r.push(b[i]);
        i = i + 1;
        assert(r@ =~= b@.subrange(0, i as int));
    }
    assert(r@ =~= b@);
    r
}

pub(crate) fn copy_opt_bytes(o: &Option<Vec<u8>>) -> (r: Option<Vec<u8>>)
    ensures
        opt_bytes_view(r) == opt_bytes_view(*o),
{
    match o {
        Some(v) => Some(copy_bytes(v.as_slice())),
        None => None,
    }
}

impl X509VerifyParam {
    /// Parameters with no flags, no host, address or time, and the default depth.
    pub fn new() -> (r: Result<X509VerifyParam, ErrorStack>)
        ensures
            r is Ok,
            r->Ok_0@ == default_param(),
    {
        Ok(X509VerifyParam { flags: 0, hostflags: 0, host: None, ip: None, time: 0, depth: -1 })
    }

    /// A copy holding the same values.
    pub fn duplicate(&self) -> (r: X509VerifyParam)
        ensures
            r@ == self@,
    {
        X509VerifyParam {
            flags: self.flags,
            hostflags: self.hostflags,
            host: copy_opt_bytes(&self.host),
            ip: copy_opt_bytes(&self.ip),
            time: self.time,
            depth: self.depth,
        }
    }

    pub fn set_hostflags(&mut self, hostflags: X509CheckFlags)
        ensures
            final(self)@ == (ParamView { hostflags: hostflags.bits, ..old(self)@ }),
    {
        self.hostflags = hostflags.bits;
    }

    pub fn hostflags(&self) -> (r: X509CheckFlags)
        ensures
            r.bits == self@.hostflags,
    {
        X509CheckFlags { bits: self.hostflags }
    }

    /// Turns the given flags on: the new flag word is the old one OR `flags`.
    pub fn set_flags(&mut self, flags: X509VerifyFlags) -> (r: Result<(), ErrorStack>)
        ensures
            r is Ok,
            final(self)@ == (ParamView { flags: old(self)@.flags | flags.bits, ..old(self)@ }),
    {
        self.flags = self.flags | flags.bits;
        Ok(())
    }

    /// Turns the given flags off.
    pub fn clear_flags(&mut self, flags: X509VerifyFlags) -> (r: Result<(), ErrorStack>)
        ensures
            r is Ok,
            final(self)@ == (ParamView { flags: old(self)@.flags & !flags.bits, ..old(self)@ }),
    {
        self.flags = self.flags & !flags.bits;
        Ok(())
    }

    pub fn flags(&mut self) -> (r: X509VerifyFlags)
        ensures
            r.bits == old(self)@.flags,
            final(self)@ == old(self)@,
    {
        X509VerifyFlags { bits: self.flags }
    }

    /// Sets the expected host name to exactly the bytes given; an empty name
    /// turns the host check off. A name holding a NUL byte is refused.
    pub fn set_host(&mut self, host: &str) -> (r: Result<(), ErrorStack>)
        ensures
            r is Err <==> has_nul(host.spec_bytes()),
            r is Err ==> r->Err_0.reason == ErrorReason::InvalidHostName && final(self)@ == old(self)@,
            r is Ok ==> final(self)@ == (ParamView {
                host: if host.spec_bytes().len() == 0 { None } else { Some(host.spec_bytes()) },
                ..old(self)@
            }),
    {
        let bytes = host.as_bytes();
        let len: usize = bytes.len();
        let mut name: Vec<u8> = Vec::new();
        let mut i: usize = 0;
        while i < len
            invariant
                bytes@ == host.spec_bytes(),
                len == bytes@.len(),
                i <= len,
                name@ == bytes@.subrange(0, i as int),
                forall|j: int| 0 <= j < i ==> bytes@[j] != 0u8,
            decreases len - i,
        {
            if bytes[i] == 0u8 {
                assert(bytes@[i as int] == 0u8);
                assert(has_nul(bytes@));
                return Err(ErrorStack::new(ErrorReason::InvalidHostName));
            }
            name.push(bytes[i]);
            i = i + 1;
            assert(name@ =~= bytes@.subrange(0, i as int));
        }
        assert(name@ =~= bytes@);
        if len == 0 {
            self.host = None;
        } else {
            self.host = Some(name);
        }
        Ok(())
    }

    /// Sets the expected IP address, given as its 4 or 16 bytes.
    pub fn set_ip(&mut self, ip: &[u8]) -> (r: Result<(), ErrorStack>)
        ensures
            r is Err <==> !(ip@.len() == 4 || ip@.len() == 16),
            r is Err ==> r->Err_0.reason == ErrorReason::InvalidIpLength && final(self)@ == old(self)@,
            r is Ok ==> final(self)@ == (ParamView { ip: Some(ip@), ..old(self)@ }),
    {
        if ip.len() != 4 && ip.len() != 16 {
            return Err(ErrorStack::new(ErrorReason::InvalidIpLength));
        }
        self.ip = Some(copy_bytes(ip));
        Ok(())
    }

    /// Fixes the instant, in seconds since the epoch, at which validity is
    /// checked.
    pub fn set_time(&mut self, time: i64)
        ensures
            final(self)@ == (ParamView {
                time,
                flags: old(self)@.flags | X509VerifyFlags::USE_CHECK_TIME,
                ..old(self)@
            }),
    {
        self.time = time;
        self.flags = self.flags | X509VerifyFlags::USE_CHECK_TIME;
    }

    /// The instant set by `set_time`; the epoch where none was set.
    pub fn get_time(&self) -> (r: i64)
        ensures
            r == self@.time,
    {
        self.time
    }

    pub fn set_depth(&mut self, depth: isize)
        ensures
            final(self)@ == (ParamView { depth, ..old(self)@ }),
    {
        self.depth = depth;
    }

    /// The maximum depth; negative where the library's default applies.
    pub fn get_depth(&mut self) -> (r: isize)
        ensures
            r == old(self)@.depth,
            final(self)@ == old(self)@,
    {
        self.depth
    }

    /// These parameters with the unset ones taken from `defaults`; the flags
    /// of both apply.
    pub fn inherit(&self, defaults: &X509VerifyParam) -> (r: X509VerifyParam)
        ensures
            r@ == effective_param(defaults@, Some(self@)),
    {
        X509VerifyParam {
            flags: defaults.flags | self.flags,
            hostflags: if self.hostflags != 0 { self.hostflags } else { defaults.hostflags },
            host: if self.host.is_some() { copy_opt_bytes(&self.host) } else { copy_opt_bytes(&defaults.host) },
            ip: if self.ip.is_some() { copy_opt_bytes(&self.ip) } else { copy_opt_bytes(&defaults.ip) },
            time: if self.flags & X509VerifyFlags::USE_CHECK_TIME != 0 { self.time } else { defaults.time },
            depth: if self.depth >= 0 { self.depth } else { defaults.depth },
        }
    }

    pub fn flag_bits(&self) -> (r: u64)
        ensures
            r == self@.flags,
    {
        self.flags
    }

    pub fn depth(&self) -> (r: isize)
        ensures
            r == self@.depth,
    {
        self.depth
    }

    /// A copy of the expected host name.
    pub fn host_name(&self) -> (r: Option<Vec<u8>>)
        ensures
            opt_bytes_view(r) == self@.host,
    {
        copy_opt_bytes(&self.host)
    }

    /// A copy of the expected IP address.
    pub fn ip_addr(&self) -> (r: Option<Vec<u8>>)
        ensures
            opt_bytes_view(r) == self@.ip,
    {
        copy_opt_bytes(&self.ip)
    }
}

} // verus!
