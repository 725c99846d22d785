//! Certificates and certificate revocation lists, as the fields that
//! verification reads.

use vstd::prelude::*;

use vstd::string::StringSliceAdditionalSpecFns;

use crate::verify::copy_bytes;

verus! {

/// What chain building reads of a certificate. Names are held as their
/// subject-name hashes and keys as identifiers: `signer_key_id` names the key
/// whose signature the certificate carries, so an issuer's signature checks
/// out exactly when its `key_id` equals it.
#[derive(Clone, Copy, PartialEq, Eq, Structural, Debug)]
pub struct CertInfo {
    pub serial: u64,
    pub subject_hash: u32,
    pub issuer_hash: u32,
    pub key_id: u64,
    pub signer_key_id: u64,
    pub not_before: i64,
    pub not_after: i64,
    pub is_ca: bool,
    /// The basic-constraints path length; negative where there is none.
    pub path_len: i32,
}

/// Issued by itself: the subject is the issuer and its own key signed it.
pub open spec fn self_signed(c: CertInfo) -> bool {
    c.subject_hash == c.issuer_hash && c.signer_key_id == c.key_id
}

impl CertInfo {
    pub fn is_self_signed(&self) -> (r: bool)
        ensures
            r == self_signed(*self),
    {
        self.subject_hash == self.issuer_hash && self.signer_key_id == self.key_id
    }
}

pub open spec fn seq_bytes_view(v: Seq<Vec<u8>>) -> Seq<Seq<u8>> {
    v.map_values(|b: Vec<u8>| b@)
}

pub struct X509View {
    pub info: CertInfo,
    pub dns_names: Seq<Seq<u8>>,
    pub ip_addrs: Seq<Seq<u8>>,
}

/// A certificate: the fields that chain building reads, and the DNS names
/// and IP addresses of its subject-alternative-name extension.
pub struct X509 {
    pub info: CertInfo,
    pub dns_names: Vec<Vec<u8>>,
    pub ip_addrs: Vec<Vec<u8>>,
}

impl View for X509 {
    type V = X509View;

    open spec fn view(&self) -> X509View {
        X509View {
            info: self.info,
            dns_names: seq_bytes_view(self.dns_names@),
            ip_addrs: seq_bytes_view(self.ip_addrs@),
        }
    }
}

pub(crate) fn copy_byte_lists(v: &Vec<Vec<u8>>) -> (r: Vec<Vec<u8>>)
    ensures
        seq_bytes_view(r@) == seq_bytes_view(v@),
{
    let mut r: Vec<Vec<u8>> = Vec::new();
    let mut i: usize = 0;
    while i < v.len()
        invariant
            i <= v@.len(),
            r@.len() == i,
            forall|j: int| 0 <= j < i ==> (#[trigger] r@[j])@ == v@[j]@,
        decreases v@.len() - i,
    {
        r.push(copy_bytes(v[i].as_slice()));
        i = i + 1;
    }
    assert(seq_bytes_view(r@) =~= seq_bytes_view(v@));
    r
}

impl X509 {
    /// A certificate with no alternative names.
    pub fn new(info: CertInfo) -> (r: X509)
        ensures
            r@ == (X509View { info, dns_names: Seq::empty(), ip_addrs: Seq::empty() }),
    {
        let r = X509 { info, dns_names: Vec::new(), ip_addrs: Vec::new() };
        assert(r@.dns_names =~= Seq::empty());
        assert(r@.ip_addrs =~= Seq::empty());
        r
    }

    pub fn add_dns_name(&mut self, name: &str)
        ensures
            final(self)@ == (X509View {
                dns_names: old(self)@.dns_names.push(name.spec_bytes()),
                ..old(self)@
            }),
    {
        let b = copy_bytes(name.as_bytes());
        self.dns_names.push(b);
        assert(self@.dns_names =~= old(self)@.dns_names.push(name.spec_bytes()));
    }

    pub fn add_ip_addr(&mut self, ip: &[u8])
        ensures
            final(self)@ == (X509View { ip_addrs: old(self)@.ip_addrs.push(ip@), ..old(self)@ }),
    {
        let b = copy_bytes(ip);
        self.ip_addrs.push(b);
        assert(self@.ip_addrs =~= old(self)@.ip_addrs.push(ip@));
    }

    pub fn info(&self) -> (r: CertInfo)
        ensures
            r == self.info,
    {
        self.info
    }

    /// A copy holding the same values.
    pub fn duplicate(&self) -> (r: X509)
        ensures
            r@ == self@,
    {
        X509 {
            info: self.info,
            dns_names: copy_byte_lists(&self.dns_names),
            ip_addrs: copy_byte_lists(&self.ip_addrs),
        }
    }
}

pub struct CrlView {
    pub issuer_hash: u32,
    pub signer_key_id: u64,
    pub last_update: i64,
    pub next_update: Option<i64>,
    pub revoked: Seq<u64>,
}

/// A certificate revocation list: who issued it, which key signed it, when
/// it was issued and is next due, and the serial numbers it revokes.
pub struct X509Crl {
    pub issuer_hash: u32,
    pub signer_key_id: u64,
    pub last_update: i64,
    pub next_update: Option<i64>,
    pub revoked: Vec<u64>,
}

impl View for X509Crl {
    type V = CrlView;

    open spec fn view(&self) -> CrlView {
        CrlView {
            issuer_hash: self.issuer_hash,
            signer_key_id: self.signer_key_id,
            last_update: self.last_update,
            next_update: self.next_update,
            revoked: self.revoked@,
        }
    }
}

impl X509Crl {
    /// A list that revokes nothing yet.
    pub fn new(issuer_hash: u32, signer_key_id: u64, last_update: i64, next_update: Option<i64>) -> (r: X509Crl)
        ensures
            r@ == (CrlView { issuer_hash, signer_key_id, last_update, next_update, revoked: Seq::empty() }),
    {
        let r = X509Crl { issuer_hash, signer_key_id, last_update, next_update, revoked: Vec::new() };
        assert(r@.revoked =~= Seq::<u64>::empty());
        r
    }

    pub fn add_revoked(&mut self, serial: u64)
        ensures
            final(self)@ == (CrlView { revoked: old(self)@.revoked.push(serial), ..old(self)@ }),
    {
        self.revoked.push(serial);
    }

    /// Whether `serial` is on the list.
    pub fn is_revoked(&self, serial: u64) -> (r: bool)
        ensures
            r == self@.revoked.contains(serial),
    {
        let mut i: usize = 0;
        while i < self.revoked.len()
            invariant
                i <= self.revoked@.len(),
                forall|j: int| 0 <= j < i ==> self.revoked@[j] != serial,
            decreases self.revoked@.len() - i,
        {
            if self.revoked[i] == serial {
                return true;
            }
            i = i + 1;
        }
        false
    }

    /// A copy holding the same values.
    pub fn duplicate(&self) -> (r: X509Crl)
        ensures
            r@ == self@,
    {
        let mut revoked: Vec<u64> = Vec::new();
        let mut i: usize = 0;
        while i < self.revoked.len()
            invariant
                i <= self.revoked@.len(),
                revoked@ == self.revoked@.subrange(0, i as int),
            decreases self.revoked@.len() - i,
        {
            revoked.push(self.revoked[i]);
            i = i + 1;
            assert(revoked@ =~= self.revoked@.subrange(0, i as int));
        }
        assert(revoked@ =~= self.revoked@);
        X509Crl {
            issuer_hash: self.issuer_hash,
            signer_key_id: self.signer_key_id,
            last_update: self.last_update,
            next_update: self.next_update,
            revoked,
        }
    }
}

} // verus!
