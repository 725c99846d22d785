//! Signing CMS messages and verifying their signatures against a store.

use vstd::prelude::*;

use crate::context::{append_crls, context_of, verify_cert, verify_outcome, X509_V_OK};
use crate::error::{ErrorReason, ErrorStack};
use crate::store::{append_certs, certs_view, crls_view, StoreView, X509Store};
use crate::verify::copy_bytes;
use crate::x509::{CrlView, X509Crl, X509View, X509};

verus! {

/// Options of CMS signing and verification.
///
/// Signing reads `CMS_NOCERTS`, `DETACHED`, `STREAM` and `PARTIAL`;
/// verification reads `NO_CONTENT_VERIFY`, `NO_ATTR_VERIFY` (both together
/// are `NOSIGS`), `NOINTERN` and `NO_SIGNER_CERT_VERIFY` (also `NOVERIFY`).
/// The others concern encodings and attributes that a message here does not
/// hold, and change no outcome.
#[derive(Clone, Copy, PartialEq, Eq, Structural, Debug)]
pub struct CMSOptions {
    pub bits: u32,
}

impl CMSOptions {
    pub const TEXT: u32 = 0x1;
    pub const CMS_NOCERTS: u32 = 0x2;
    pub const NO_CONTENT_VERIFY: u32 = 0x4;
    pub const NO_ATTR_VERIFY: u32 = 0x8;
    pub const NOSIGS: u32 = 0xc;
    pub const NOINTERN: u32 = 0x10;
    pub const NO_SIGNER_CERT_VERIFY: u32 = 0x20;
    pub const NOVERIFY: u32 = 0x20;
    pub const DETACHED: u32 = 0x40;
    pub const BINARY: u32 = 0x80;
    pub const NOATTR: u32 = 0x100;
    pub const NOSMIMECAP: u32 = 0x200;
    pub const NOOLDMIMETYPE: u32 = 0x400;
    pub const CRLFEOL: u32 = 0x800;
    pub const STREAM: u32 = 0x1000;
    pub const NOCRL: u32 = 0x2000;
    pub const PARTIAL: u32 = 0x4000;
    pub const REUSE_DIGEST: u32 = 0x8000;
    pub const USE_KEYID: u32 = 0x10000;
    pub const DEBUG_DECRYPT: u32 = 0x20000;
    pub const KEY_PARAM: u32 = 0x40000;
    pub const ASCIICRLF: u32 = 0x80000;

    pub fn from_bits(bits: u32) -> (r: CMSOptions)
        ensures
            r.bits == bits,
    {
        CMSOptions { bits }
    }

    pub fn empty() -> (r: CMSOptions)
        ensures
            r.bits == 0,
    {
        CMSOptions { bits: 0 }
    }

    pub fn bits(&self) -> (r: u32)
        ensures
            r == self.bits,
    {
        self.bits
    }

    pub fn union(self, other: CMSOptions) -> (r: CMSOptions)
        ensures
            r.bits == self.bits | other.bits,
    {
        CMSOptions { bits: self.bits | other.bits }
    }

    pub fn contains(&self, other: CMSOptions) -> (r: bool)
        ensures
            r == (self.bits & other.bits == other.bits),
    {
        self.bits & other.bits == other.bits
    }
}

pub open spec fn has_option(flags: u32, bit: u32) -> bool {
    flags & bit != 0
}

/// A private key, known by the identifier of its public half.
#[derive(Clone, Copy, PartialEq, Eq, Structural, Debug)]
pub struct PKey {
    pub key_id: u64,
}

pub struct SignerView {
    pub sid_issuer_hash: u32,
    pub sid_serial: u64,
    pub signer_key_id: u64,
    pub signed_content: Seq<u8>,
    pub signer: Option<X509View>,
}

/// One signature of a message: the signer's identifier (issuer and serial
/// number), the key that made the signature, the content it covers, and the
/// signer's certificate where it is known.
pub struct SignerInfo {
    pub sid_issuer_hash: u32,
    pub sid_serial: u64,
    pub signer_key_id: u64,
    pub signed_content: Vec<u8>,
    pub signer: Option<X509>,
}

pub open spec fn opt_cert_view(c: Option<X509>) -> Option<X509View> {
    match c {
        Some(x) => Some(x@),
        None => None,
    }
}

impl View for SignerInfo {
    type V = SignerView;

    open spec fn view(&self) -> SignerView {
        SignerView {
            sid_issuer_hash: self.sid_issuer_hash,
            sid_serial: self.sid_serial,
            signer_key_id: self.signer_key_id,
            signed_content: self.signed_content@,
            signer: opt_cert_view(self.signer),
        }
    }
}

pub open spec fn signers_view(v: Seq<SignerInfo>) -> Seq<SignerView> {
    v.map_values(|s: SignerInfo| s@)
}

pub struct CmsView {
    pub content: Option<Seq<u8>>,
    pub certs: Seq<X509View>,
    pub crls: Seq<CrlView>,
    pub signers: Seq<SignerView>,
}

/// A signed CMS message: its content unless detached, the certificates and
/// CRLs it carries, and its signatures.
pub struct CmsContentInfo {
    content: Option<Vec<u8>>,
    certs: Vec<X509>,
    crls: Vec<X509Crl>,
    signers: Vec<SignerInfo>,
}

impl View for CmsContentInfo {
    type V = CmsView;

    closed spec fn view(&self) -> CmsView {
        CmsView {
            content: crate::verify::opt_bytes_view(self.content),
            certs: certs_view(self.certs@),
            crls: crls_view(self.crls@),
            signers: signers_view(self.signers@),
        }
    }
}

pub open spec fn sid_matches(c: X509View, issuer_hash: u32, serial: u64) -> bool {
    c.info.issuer_hash == issuer_hash && c.info.serial == serial
}

/// The index of the first certificate of `list`, from `i` on, that the
/// identifier names.
pub open spec fn sid_index_from(list: Seq<X509View>, issuer_hash: u32, serial: u64, i: int) -> Option<int>
    decreases list.len() - i,
{
    if i < 0 || i >= list.len() {
        None
    } else if sid_matches(list[i], issuer_hash, serial) {
        Some(i)
    } else {
        sid_index_from(list, issuer_hash, serial, i + 1)
    }
}

/// The certificate a signature is checked with: the one it carries, else
/// the first the caller's list names, else, without `NOINTERN`, the first of
/// the message's own certificates it names.
pub open spec fn signer_cert(
    si: SignerView,
    signers: Option<Seq<X509View>>,
    msg: CmsView,
    flags: u32,
) -> Option<X509View> {
    let from_list = match signers {
        Some(l) => match sid_index_from(l, si.sid_issuer_hash, si.sid_serial, 0) {
            Some(k) => Some(l[k]),
            None => None,
        },
        None => None,
    };
    let from_msg = match sid_index_from(msg.certs, si.sid_issuer_hash, si.sid_serial, 0) {
        Some(k) => Some(msg.certs[k]),
        None => None,
    };
    if si.signer is Some {
        si.signer
    } else if from_list is Some {
        from_list
    } else if !has_option(flags, CMSOptions::NOINTERN) {
        from_msg
    } else {
        None
    }
}

/// A signature holds: its certificate chains up to the store (unless
/// `NO_SIGNER_CERT_VERIFY`), its key is the certificate's (unless
/// `NO_ATTR_VERIFY`), and it covers the message's content (unless
/// `NO_CONTENT_VERIFY`).
pub open spec fn signature_holds(
    si: SignerView,
    cert: X509View,
    msg: CmsView,
    store: StoreView,
    flags: u32,
    now: i64,
) -> bool {
    &&& has_option(flags, CMSOptions::NO_SIGNER_CERT_VERIFY) || verify_outcome(
        context_of(store, None, msg.certs, now),
        cert,
    ).code == X509_V_OK
    &&& has_option(flags, CMSOptions::NO_ATTR_VERIFY) || cert.info.key_id == si.signer_key_id
    &&& has_option(flags, CMSOptions::NO_CONTENT_VERIFY) || Some(si.signed_content) == msg.content
}

pub open spec fn signer_valid(
    si: SignerView,
    signers: Option<Seq<X509View>>,
    msg: CmsView,
    store: StoreView,
    flags: u32,
    now: i64,
) -> bool {
    match signer_cert(si, signers, msg, flags) {
        Some(cert) => signature_holds(si, cert, msg, store, flags, now),
        None => false,
    }
}

/// What verifying `msg` returns: an error for a message without signatures
/// or without content, else whether every signature holds.
pub open spec fn cms_verify_result(
    msg: CmsView,
    signers: Option<Seq<X509View>>,
    store: StoreView,
    flags: u32,
    now: i64,
) -> Result<bool, ErrorReason> {
    if msg.signers.len() == 0 {
        Err(ErrorReason::NoSigners)
    } else if msg.content is None {
        Err(ErrorReason::NoContent)
    } else {
        Ok(
            forall|i: int|
                0 <= i < msg.signers.len() ==> signer_valid(
                    #[trigger] msg.signers[i],
                    signers,
                    msg,
                    store,
                    flags,
                    now,
                ),
        )
    }
}

pub open spec fn result_view(r: Result<bool, ErrorStack>) -> Result<bool, ErrorReason> {
    match r {
        Ok(b) => Ok(b),
        Err(e) => Err(e.reason),
    }
}

pub open spec fn opt_certs_view(l: Option<&Vec<X509>>) -> Option<Seq<X509View>> {
    match l {
        Some(v) => Some(certs_view(v@)),
        None => None,
    }
}

fn sid_index(list: &Vec<X509>, issuer_hash: u32, serial: u64) -> (r: Option<usize>)
    ensures
        match r {
            Some(k) => k < list@.len() && sid_index_from(certs_view(list@), issuer_hash, serial, 0)
                == Some(k as int),
            None => sid_index_from(certs_view(list@), issuer_hash, serial, 0) is None,
        },
{
    let mut i: usize = 0;
    while i < list.len()
        invariant
            i <= list@.len(),
            sid_index_from(certs_view(list@), issuer_hash, serial, 0) == sid_index_from(
                certs_view(list@),
                issuer_hash,
                serial,
                i as int,
            ),
        decreases list@.len() - i,
    {
        if list[i].info.issuer_hash == issuer_hash && list[i].info.serial == serial {
            return Some(i);
        }
        i = i + 1;
    }
    None
}

impl CmsContentInfo {
    /// A received message, from its parts: the content unless detached,
    /// the certificates and CRLs it carries, and its signatures.
    pub fn from_parts(
        content: Option<&[u8]>,
        certs: &Vec<X509>,
        crls: &Vec<X509Crl>,
        signers: Vec<SignerInfo>,
    ) -> (r: CmsContentInfo)
        ensures
            r@ == (CmsView {
                content: match content {
                    Some(c) => Some(c@),
                    None => None,
                },
                certs: certs_view(certs@),
                crls: crls_view(crls@),
                signers: signers_view(signers@),
            }),
    {
        let body = match content {
            Some(c) => Some(copy_bytes(c)),
            None => None,
        };
        let mut carried: Vec<X509> = Vec::new();
        append_certs(&mut carried, certs);
        assert(certs_view(carried@) =~= certs_view(certs@));
        let mut lists: Vec<X509Crl> = Vec::new();
        append_crls(&mut lists, crls);
        assert(crls_view(lists@) =~= crls_view(crls@));
        CmsContentInfo { content: body, certs: carried, crls: lists, signers }
    }

    /// Signs `data`. With a key, a signature by it is added, which needs the
    /// key's certificate; the certificate is carried unless `CMS_NOCERTS`,
    /// followed by `certs`. Without `STREAM` or `PARTIAL` the content must be
    /// given; under `DETACHED` it is not carried.
    pub fn sign(
        signcert: Option<&X509>,
        pkey: Option<&PKey>,
        certs: Option<&Vec<X509>>,
        data: Option<&[u8]>,
        flags: CMSOptions,
    ) -> (r: Result<CmsContentInfo, ErrorStack>)
        ensures
            ({
                let mismatch = pkey is Some && (signcert is None || signcert->0.info.key_id
                    != pkey->0.key_id);
                let unfinished = has_option(flags.bits, CMSOptions::STREAM) || has_option(
                    flags.bits,
                    CMSOptions::PARTIAL,
                );
                let content: Seq<u8> = match data {
                    Some(d) => d@,
                    None => Seq::empty(),
                };
                let extra: Seq<X509View> = match certs {
                    Some(l) => certs_view(l@),
                    None => Seq::empty(),
                };
                &&& mismatch ==> r is Err && r->Err_0.reason == ErrorReason::KeyCertMismatch
                &&& !mismatch && data is None && !unfinished ==> r is Err && r->Err_0.reason
                    == ErrorReason::NoContent
                &&& !mismatch && (data is Some || unfinished) ==> r is Ok && r->Ok_0@ == (CmsView {
                    content: if has_option(flags.bits, CMSOptions::DETACHED) || data is None {
                        None
                    } else {
                        Some(content)
                    },
                    certs: if pkey is Some && !has_option(flags.bits, CMSOptions::CMS_NOCERTS) {
                        seq![signcert->0@] + extra
                    } else {
                        extra
                    },
                    crls: Seq::empty(),
                    signers: if pkey is Some {
                        seq![
                            SignerView {
                                sid_issuer_hash: signcert->0.info.issuer_hash,
                                sid_serial: signcert->0.info.serial,
                                signer_key_id: pkey->0.key_id,
                                signed_content: content,
                                signer: Some(signcert->0@),
                            },
                        ]
                    } else {
                        Seq::empty()
                    },
                })
            }),
    {
        if let Some(k) = pkey {
            match signcert {
                None => {
                    return Err(ErrorStack::new(ErrorReason::KeyCertMismatch));
                },
                Some(c) => {
                    if c.info.key_id != k.key_id {
                        return Err(ErrorStack::new(ErrorReason::KeyCertMismatch));
                    }
                },
            }
        }
        let unfinished = flags.bits & CMSOptions::STREAM != 0 || flags.bits & CMSOptions::PARTIAL
            != 0;
        if data.is_none() && !unfinished {
            return Err(ErrorStack::new(ErrorReason::NoContent));
        }
        let content: Vec<u8> = match data {
            Some(d) => copy_bytes(d),
            None => Vec::new(),
        };
        let ghost content_view: Seq<u8> = match data {
            Some(d) => d@,
            None => Seq::empty(),
        };
        assert(content@ =~= content_view);
        let mut carried: Vec<X509> = Vec::new();
        let mut signers: Vec<SignerInfo> = Vec::new();
        if let Some(k) = pkey {
            let c = signcert.unwrap();
            if flags.bits & CMSOptions::CMS_NOCERTS == 0 {
                carried.push(c.duplicate());
            }
            signers.push(
                SignerInfo {
                    sid_issuer_hash: c.info.issuer_hash,
                    sid_serial: c.info.serial,
                    signer_key_id: k.key_id,
                    signed_content: copy_bytes(content.as_slice()),
                    signer: Some(c.duplicate()),
                },
            );
        }
        let ghost first = certs_view(carried@);
        if let Some(l) = certs {
            append_certs(&mut carried, l);
        } else {
            assert(first + Seq::<X509View>::empty() =~= first);
        }
        let detached = flags.bits & CMSOptions::DETACHED != 0;
        let msg = CmsContentInfo {
            content: if detached || data.is_none() { None } else { Some(content) },
            certs: carried,
            crls: Vec::new(),
            signers,
        };
        assert(msg@.crls =~= Seq::<CrlView>::empty());
        proof {
            if pkey is Some {
                assert(msg@.signers =~= seq![
                    SignerView {
                        sid_issuer_hash: signcert->0.info.issuer_hash,
                        sid_serial: signcert->0.info.serial,
                        signer_key_id: pkey->0.key_id,
                        signed_content: content_view,
                        signer: Some(signcert->0@),
                    },
                ]);
                if !has_option(flags.bits, CMSOptions::CMS_NOCERTS) {
                    assert(first =~= seq![signcert->0@]);
                } else {
                    assert(first =~= Seq::<X509View>::empty());
                }
            } else {
                assert(msg@.signers =~= Seq::<SignerView>::empty());
                assert(first =~= Seq::<X509View>::empty());
            }
        }
        Ok(msg)
    }

    /// Checks every signature of the message against `trust` at time `now`.
    /// A message without signatures or without content is an error; any
    /// signature that does not hold makes the answer `false`.
    pub fn verify(
        &self,
        signers: Option<&Vec<X509>>,
        trust: &X509Store,
        flags: CMSOptions,
        now: i64,
    ) -> (r: Result<bool, ErrorStack>)
        ensures
            self@.signers.len() == 0 <==> r is Err && r->Err_0.reason == ErrorReason::NoSigners,
            self@.signers.len() > 0 && self@.content is None <==> r is Err && r->Err_0.reason
                == ErrorReason::NoContent,
            self@.signers.len() > 0 && self@.content is Some ==> r is Ok,
            result_view(r) == cms_verify_result(self@, opt_certs_view(signers), trust@, flags.bits, now),
            r is Ok ==> r->Ok_0 == forall|i: int|
                0 <= i < self@.signers.len() ==> signer_valid(
                    #[trigger] self@.signers[i],
                    opt_certs_view(signers),
                    self@,
                    trust@,
                    flags.bits,
                    now,
                ),
    {
        if self.signers.len() == 0 {
            return Err(ErrorStack::new(ErrorReason::NoSigners));
        }
        let content = match &self.content {
            Some(c) => c,
            None => {
                return Err(ErrorStack::new(ErrorReason::NoContent));
            },
        };
        let mut i: usize = 0;
        while i < self.signers.len()
            invariant
                i <= self@.signers.len(),
                self@.content == Some(content@),
                forall|j: int|
                    0 <= j < i ==> signer_valid(
                        #[trigger] self@.signers[j],
                        opt_certs_view(signers),
                        self@,
                        trust@,
                        flags.bits,
                        now,
                    ),
            decreases self@.signers.len() - i,
        {
            let si = &self.signers[i];
            assert(self@.signers[i as int] == si@);
            let cert: &X509 = match &si.signer {
                Some(c) => c,
                None => {
                    let listed = match signers {
                        Some(l) => match sid_index(l, si.sid_issuer_hash, si.sid_serial) {
                            Some(k) => Some(&l[k]),
                            None => None,
                        },
                        None => None,
                    };
                    match listed {
                        Some(c) => c,
                        None => {
                            if flags.bits & CMSOptions::NOINTERN != 0 {
                                return Ok(false);
                            }
                            match sid_index(&self.certs, si.sid_issuer_hash, si.sid_serial) {
                                Some(k) => &self.certs[k],
                                None => {
                                    return Ok(false);
                                },
                            }
                        },
                    }
                },
            };
            assert(signer_cert(si@, opt_certs_view(signers), self@, flags.bits) == Some(cert@));
            if flags.bits & CMSOptions::NO_SIGNER_CERT_VERIFY == 0 {
                let outcome = verify_cert(trust, None, cert, &self.certs, now);
                if outcome.error.code != X509_V_OK {
                    return Ok(false);
                }
            }
            if flags.bits & CMSOptions::NO_ATTR_VERIFY == 0 && cert.info.key_id != si.signer_key_id {
                return Ok(false);
            }
            if flags.bits & CMSOptions::NO_CONTENT_VERIFY == 0 && !crate::store::bytes_equal(
                &si.signed_content,
                content,
            ) {
                return Ok(false);
            }
            i = i + 1;
        }
        Ok(true)
    }

    /// The content, unless the message is detached.
    pub fn get_content(&self) -> (r: Result<&[u8], ErrorStack>)
        ensures
            r is Ok <==> self@.content is Some,
            r is Ok ==> Some(r->Ok_0@) == self@.content,
            r is Err ==> r->Err_0.reason == ErrorReason::NoContent,
    {
        match &self.content {
            Some(c) => Ok(c.as_slice()),
            None => Err(ErrorStack::new(ErrorReason::NoContent)),
        }
    }

    /// The certificates the message carries; none where it carries none.
    pub fn get_certs(&self) -> (r: Option<Vec<X509>>)
        ensures
            r is None <==> self@.certs.len() == 0,
            r is Some ==> certs_view(r->0@) == self@.certs,
    {
        if self.certs.len() == 0 {
            return None;
        }
        let mut out: Vec<X509> = Vec::new();
        append_certs(&mut out, &self.certs);
        assert(certs_view(out@) =~= certs_view(self.certs@));
        Some(out)
    }

    /// The CRLs the message carries; none where it carries none.
    pub fn get_crls(&self) -> (r: Option<Vec<X509Crl>>)
        ensures
            r is None <==> self@.crls.len() == 0,
            r is Some ==> crls_view(r->0@) == self@.crls,
    {
        if self.crls.len() == 0 {
            return None;
        }
        let mut out: Vec<X509Crl> = Vec::new();
        let mut i: usize = 0;
        while i < self.crls.len()
            invariant
                i <= self.crls@.len(),
                out@.len() == i,
                forall|j: int| 0 <= j < i ==> (#[trigger] out@[j])@ == self.crls@[j]@,
            decreases self.crls@.len() - i,
        {
            out.push(self.crls[i].duplicate());
            i = i + 1;
        }
        assert(crls_view(out@) =~= crls_view(self.crls@));
        Some(out)
    }
}

} // verus!
