//! The certificate store: its builder, the store itself, and the lookups
//! that load certificates and CRLs when a verification asks for them.

use vstd::prelude::*;

use vstd::string::StringSliceAdditionalSpecFns;

use crate::error::{ErrorReason, ErrorStack};
use crate::verify::{copy_bytes, has_nul, ParamView, X509VerifyFlags, X509VerifyParam};
use crate::x509::{CrlView, X509Crl, X509View, X509};

verus! {

pub open spec fn certs_view(v: Seq<X509>) -> Seq<X509View> {
    v.map_values(|c: X509| c@)
}

pub open spec fn crls_view(v: Seq<X509Crl>) -> Seq<CrlView> {
    v.map_values(|c: X509Crl| c@)
}

/// Appends copies of the certificates of `l` to `r`.
pub(crate) fn append_certs(r: &mut Vec<X509>, l: &Vec<X509>)
    ensures
        certs_view(final(r)@) == certs_view(old(r)@) + certs_view(l@),
{
    let ghost start = r@;
    let n = r.len();
    let mut i: usize = 0;
    while i < l.len()
        invariant
            n == start.len(),
            i <= l@.len(),
            r@.len() == n + i,
            forall|j: int| 0 <= j < n ==> (#[trigger] r@[j])@ == start[j]@,
            forall|j: int| n <= j < n + i ==> (#[trigger] r@[j])@ == l@[j - n]@,
        decreases l@.len() - i,
    {
        r.push(l[i].duplicate());
        i = i + 1;
    }
    assert(certs_view(r@) =~= certs_view(start) + certs_view(l@));
}

/// The hashed-directory lookup method: certificates and CRLs are loaded
/// from files named after their subject-name hash when a verification asks
/// for them (see `verify_step`), and kept in the lookup.
pub struct HashDir;

/// How the files of a lookup location are encoded.
#[derive(Clone, Copy, PartialEq, Eq, Structural, Debug)]
pub enum SslFiletype {
    Pem,
    Asn1,
}

impl SslFiletype {
    pub fn as_raw(&self) -> (r: i32)
        ensures
            r == (match *self {
                SslFiletype::Pem => 1i32,
                SslFiletype::Asn1 => 2i32,
            }),
    {
        match self {
            SslFiletype::Pem => 1,
            SslFiletype::Asn1 => 2,
        }
    }
}

/// Where a lookup finds its objects: a hashed directory, or one file.
#[derive(Clone, Copy, PartialEq, Eq, Structural, Debug)]
pub enum LookupKind {
    HashDir,
    File,
}

/// A registered location of a lookup: a path and the encoding of its files.
pub struct LookupLocation {
    pub path: Vec<u8>,
    pub file_type: SslFiletype,
}

pub open spec fn locations_view(v: Seq<LookupLocation>) -> Seq<(Seq<u8>, SslFiletype)> {
    v.map_values(|l: LookupLocation| (l.path@, l.file_type))
}

pub struct LookupView {
    pub kind: LookupKind,
    pub locations: Seq<(Seq<u8>, SslFiletype)>,
    pub certs: Seq<X509View>,
    pub crls: Seq<CrlView>,
}

pub open spec fn empty_lookup(kind: LookupKind) -> LookupView {
    LookupView { kind, locations: Seq::empty(), certs: Seq::empty(), crls: Seq::empty() }
}

/// The index of the first entry of `crls` issued by `issuer_hash`, from `i` on.
pub open spec fn crl_index_from(crls: Seq<CrlView>, issuer_hash: u32, i: int) -> Option<int>
    decreases crls.len() - i,
{
    if i < 0 || i >= crls.len() {
        None
    } else if crls[i].issuer_hash == issuer_hash {
        Some(i)
    } else {
        crl_index_from(crls, issuer_hash, i + 1)
    }
}

/// The cache after a freshly loaded CRL was offered: it takes the place of a
/// kept list of the same issuer only where it is newer, and is added where
/// no list of its issuer is kept.
pub open spec fn crls_after_load(crls: Seq<CrlView>, crl: CrlView) -> Seq<CrlView> {
    match crl_index_from(crls, crl.issuer_hash, 0) {
        Some(k) => if crl.last_update > crls[k].last_update {
            crls.update(k, crl)
        } else {
            crls
        },
        None => crls.push(crl),
    }
}

/// A lookup attached to a store, with the objects it has loaded so far.
pub struct X509Lookup {
    kind: LookupKind,
    locations: Vec<LookupLocation>,
    certs: Vec<X509>,
    crls: Vec<X509Crl>,
}

impl View for X509Lookup {
    type V = LookupView;

    closed spec fn view(&self) -> LookupView {
        LookupView {
            kind: self.kind,
            locations: locations_view(self.locations@),
            certs: certs_view(self.certs@),
            crls: crls_view(self.crls@),
        }
    }
}

impl X509Lookup {
    /// The hashed-directory lookup method.
    pub fn hash_dir() -> (r: HashDir) {
        HashDir
    }

    fn empty(kind: LookupKind) -> (r: X509Lookup)
        ensures
            r@ == empty_lookup(kind),
    {
        let r = X509Lookup { kind, locations: Vec::new(), certs: Vec::new(), crls: Vec::new() };
        assert(r@.locations =~= Seq::empty());
        assert(r@.certs =~= Seq::empty());
        assert(r@.crls =~= Seq::empty());
        r
    }

    pub fn kind(&self) -> (r: LookupKind)
        ensures
            r == self@.kind,
    {
        self.kind
    }

    /// Registers a location to load from, after those registered before.
    /// An empty name, or one holding a NUL byte, is refused.
    pub fn add_dir(&mut self, name: &str, file_type: SslFiletype) -> (r: Result<(), ErrorStack>)
        ensures
            r is Err <==> name.spec_bytes().len() == 0 || has_nul(name.spec_bytes()),
            r is Err ==> r->Err_0.reason == ErrorReason::InvalidDirectory && final(self)@ == old(self)@,
            r is Ok ==> final(self)@ == (LookupView {
                locations: old(self)@.locations.push((name.spec_bytes(), file_type)),
                ..old(self)@
            }),
    {
        let path = copy_bytes(name.as_bytes());
        if path.len() == 0 || contains_nul(&path) {
            return Err(ErrorStack::new(ErrorReason::InvalidDirectory));
        }
        self.locations.push(LookupLocation { path, file_type });
        assert(self@.locations =~= old(self)@.locations.push((name.spec_bytes(), file_type)));
        Ok(())
    }

    /// The registered locations, in the order they were registered.
    pub fn locations(&self) -> (r: &Vec<LookupLocation>)
        ensures
            locations_view(r@) == self@.locations,
    {
        &self.locations
    }

    /// The certificates loaded so far.
    pub fn certs(&self) -> (r: &Vec<X509>)
        ensures
            certs_view(r@) == self@.certs,
    {
        &self.certs
    }

    /// The CRLs loaded so far.
    pub fn crls(&self) -> (r: &Vec<X509Crl>)
        ensures
            crls_view(r@) == self@.crls,
    {
        &self.crls
    }

    /// Whether a certificate of subject hash `hash` has been loaded already;
    /// where none has, the locations are to be searched for one.
    pub fn has_subject(&self, hash: u32) -> (r: bool)
        ensures
            r == exists|k: int| 0 <= k < self@.certs.len() && (#[trigger] self@.certs[k]).info.subject_hash == hash,
    {
        let mut i: usize = 0;
        while i < self.certs.len()
            invariant
                i <= self.certs@.len(),
                forall|k: int| 0 <= k < i ==> (#[trigger] self@.certs[k]).info.subject_hash != hash,
            decreases self.certs@.len() - i,
        {
            assert(self@.certs[i as int] == self.certs@[i as int]@);
            if self.certs[i].info.subject_hash == hash {
                return true;
            }
            i = i + 1;
        }
        false
    }

    /// Keeps a certificate that was loaded from one of the locations.
    pub fn add_loaded_cert(&mut self, cert: &X509)
        ensures
            final(self)@ == (LookupView { certs: old(self)@.certs.push(cert@), ..old(self)@ }),
    {
        self.certs.push(cert.duplicate());
        assert(self@.certs =~= old(self)@.certs.push(cert@));
    }

    /// Offers a CRL that was loaded from one of the locations: a kept list of
    /// the same issuer is refreshed where the new one is newer.
    pub fn add_loaded_crl(&mut self, crl: &X509Crl)
        ensures
            final(self)@ == (LookupView { crls: crls_after_load(old(self)@.crls, crl@), ..old(self)@ }),
    {
        let mut k: usize = 0;
        while k < self.crls.len()
            invariant
                k <= self.crls@.len(),
                self@ == old(self)@,
                crl_index_from(self@.crls, crl@.issuer_hash, 0) == crl_index_from(
                    self@.crls,
                    crl@.issuer_hash,
                    k as int,
                ),
            decreases self.crls@.len() - k,
        {
            if self.crls[k].issuer_hash == crl.issuer_hash {
                if crl.last_update > self.crls[k].last_update {
                    self.crls.set(k, crl.duplicate());
                    assert(self@.crls =~= old(self)@.crls.update(k as int, crl@));
                }
                return;
            }
            k = k + 1;
        }
        self.crls.push(crl.duplicate());
        assert(self@.crls =~= old(self)@.crls.push(crl@));
    }
}

fn contains_nul(b: &Vec<u8>) -> (r: bool)
    ensures
        r == has_nul(b@),
{
    let mut i: usize = 0;
    while i < b.len()
        invariant
            i <= b@.len(),
            forall|j: int| 0 <= j < i ==> b@[j] != 0u8,
        decreases b@.len() - i,
    {
        if b[i] == 0u8 {
            assert(b@[i as int] == 0u8);
            return true;
        }
        i = i + 1;
    }
    false
}

pub(crate) fn bytes_equal(a: &Vec<u8>, b: &Vec<u8>) -> (r: bool)
    ensures
        r == (a@ == b@),
{
    if a.len() != b.len() {
        return false;
    }
    let mut i: usize = 0;
    while i < a.len()
        invariant
            a@.len() == b@.len(),
            i <= a@.len(),
            forall|j: int| 0 <= j < i ==> a@[j] == b@[j],
        decreases a@.len() - i,
    {
        if a[i] != b[i] {
            return false;
        }
        i = i + 1;
    }
    assert(a@ =~= b@);
    true
}

pub open spec fn hex_digit(n: nat) -> u8 {
    if n < 10 { (48 + n) as u8 } else { (87 + n) as u8 }
}

/// The last `n` hexadecimal digits of `h`, lower case, most significant first.
pub open spec fn hex_digits(h: nat, n: nat) -> Seq<u8>
    decreases n,
{
    if n == 0 {
        Seq::empty()
    } else {
        hex_digits(h / 16, (n - 1) as nat).push(hex_digit(h % 16))
    }
}

/// The decimal digits of `n`, most significant first.
pub open spec fn decimal_digits(n: nat) -> Seq<u8>
    decreases n,
{
    if n < 10 {
        seq![(48 + n) as u8]
    } else {
        decimal_digits(n / 10).push((48 + n % 10) as u8)
    }
}

/// The name of entry `seq` for subject hash `hash` in directory `dir`:
/// `dir/hhhhhhhh.seq` for certificates and `dir/hhhhhhhh.rseq` for CRLs.
pub open spec fn entry_name(dir: Seq<u8>, hash: u32, seq: u32, crl: bool) -> Seq<u8> {
    dir + seq![47u8] + hex_digits(hash as nat, 8) + seq![46u8] + (if crl {
        seq![114u8]
    } else {
        Seq::empty()
    }) + decimal_digits(seq as nat)
}

fn hex_digits_exec(h: u32, n: usize) -> (r: Vec<u8>)
    requires
        n <= 8,
    ensures
        r@ == hex_digits(h as nat, n as nat),
    decreases n,
{
    if n == 0 {
        let r: Vec<u8> = Vec::new();
        assert(r@ =~= Seq::<u8>::empty());
        r
    } else {
        let mut r = hex_digits_exec(h / 16, n - 1);
        let d = h % 16;
        let c: u8 = if d < 10 { 48 + d as u8 } else { 87 + d as u8 };
        r.push(c);
        r
    }
}

fn decimal_digits_exec(n: u32) -> (r: Vec<u8>)
    ensures
        r@ == decimal_digits(n as nat),
    decreases n,
{
    if n < 10 {
        let mut r: Vec<u8> = Vec::new();
        r.push(48 + n as u8);
        assert(r@ =~= seq![(48 + n) as u8]);
        r
    } else {
        let mut r = decimal_digits_exec(n / 10);
        r.push(48 + (n % 10) as u8);
        r
    }
}

/// The file name under which a hashed directory holds entry `seq` of the
/// certificates (or, with `crl`, the CRLs) whose subject hash is `hash`.
pub fn hashed_entry_name(dir: &[u8], hash: u32, seq: u32, crl: bool) -> (r: Vec<u8>)
    ensures
        r@ == entry_name(dir@, hash, seq, crl),
{
    let mut r = copy_bytes(dir);
    r.push(47u8);
    let hex = hex_digits_exec(hash, 8);
    let mut i: usize = 0;
    let ghost base = r@;
    while i < hex.len()
        invariant
            i <= hex@.len(),
            r@ == base + hex@.take(i as int),
        decreases hex@.len() - i,
    {
        r.push(hex[i]);
        i = i + 1;
        assert(r@ =~= base + hex@.take(i as int));
    }
    assert(hex@.take(i as int) =~= hex@);
    r.push(46u8);
    if crl {
        r.push(114u8);
    }
    let dec = decimal_digits_exec(seq);
    let ghost base2 = r@;
    let mut k: usize = 0;
    while k < dec.len()
        invariant
            k <= dec@.len(),
            r@ == base2 + dec@.take(k as int),
        decreases dec@.len() - k,
    {
        r.push(dec[k]);
        k = k + 1;
        assert(r@ =~= base2 + dec@.take(k as int));
    }
    assert(dec@.take(k as int) =~= dec@);
    assert(r@ =~= entry_name(dir@, hash, seq, crl));
    r
}

pub struct StoreView {
    pub certs: Seq<X509View>,
    pub crls: Seq<CrlView>,
    pub lookups: Seq<LookupView>,
    pub param: ParamView,
}

pub open spec fn lookups_view(v: Seq<X509Lookup>) -> Seq<LookupView> {
    v.map_values(|l: X509Lookup| l@)
}

proof fn lemma_replace_last(s: Seq<X509Lookup>, prefix: Seq<LookupView>, last: LookupView)
    requires
        lookups_view(s) == prefix.push(last),
    ensures
        s.len() == prefix.len() + 1,
        forall|x: X509Lookup| #[trigger] lookups_view(s.update(prefix.len() as int, x)) == prefix.push(x@),
{
    assert(lookups_view(s).len() == s.len());
    assert forall|x: X509Lookup| #[trigger] lookups_view(s.update(prefix.len() as int, x)) == prefix.push(x@) by {
        assert forall|i: int| 0 <= i < prefix.len() implies prefix[i] == s[i]@ by {
            assert(lookups_view(s)[i] == prefix.push(last)[i]);
        }
        assert(lookups_view(s.update(prefix.len() as int, x)) =~= prefix.push(x@));
    }
}

proof fn lemma_replace_at(s: Seq<X509Lookup>, index: int)
    requires
        0 <= index < s.len(),
    ensures
        lookups_view(s)[index] == s[index]@,
        forall|x: X509Lookup| #[trigger] lookups_view(s.update(index, x)) == lookups_view(s).update(index, x@),
{
    assert forall|x: X509Lookup| #[trigger] lookups_view(s.update(index, x)) == lookups_view(s).update(index, x@) by {
        assert(lookups_view(s.update(index, x)) =~= lookups_view(s).update(index, x@));
    }
}

/// Collects trusted certificates, CRLs and lookups; `build` turns it into a
/// store that no longer changes.
pub struct X509StoreBuilder {
    certs: Vec<X509>,
    crls: Vec<X509Crl>,
    lookups: Vec<X509Lookup>,
    param: X509VerifyParam,
}

impl View for X509StoreBuilder {
    type V = StoreView;

    closed spec fn view(&self) -> StoreView {
        StoreView {
            certs: certs_view(self.certs@),
            crls: crls_view(self.crls@),
            lookups: lookups_view(self.lookups@),
            param: self.param@,
        }
    }
}

impl X509StoreBuilder {
    /// An empty store under construction.
    pub fn new() -> (r: Result<X509StoreBuilder, ErrorStack>)
        ensures
            r is Ok,
            r->Ok_0@.certs.len() == 0,
            r->Ok_0@.crls.len() == 0,
            r->Ok_0@.lookups.len() == 0,
            r->Ok_0@.param == crate::verify::default_param(),
    {
        let param = match X509VerifyParam::new() {
            Ok(p) => p,
            Err(e) => return Err(e),
        };
        Ok(X509StoreBuilder { certs: Vec::new(), crls: Vec::new(), lookups: Vec::new(), param })
    }

    /// Turns the builder into a store.
    pub fn build(self) -> (r: X509Store)
        ensures
            r@ == self@,
    {
        X509Store { certs: self.certs, crls: self.crls, lookups: self.lookups, param: self.param }
    }

    /// Adds a trusted certificate.
    pub fn add_cert(&mut self, cert: &X509) -> (r: Result<(), ErrorStack>)
        ensures
            r is Ok,
            final(self)@ == (StoreView { certs: old(self)@.certs.push(cert@), ..old(self)@ }),
    {
        self.certs.push(cert.duplicate());
        assert(self@.certs =~= old(self)@.certs.push(cert@));
        Ok(())
    }

    /// Adds a CRL.
    pub fn add_crl(&mut self, crl: &X509Crl) -> (r: Result<(), ErrorStack>)
        ensures
            r is Ok,
            final(self)@ == (StoreView { crls: old(self)@.crls.push(crl@), ..old(self)@ }),
    {
        self.crls.push(crl.duplicate());
        assert(self@.crls =~= old(self)@.crls.push(crl@));
        Ok(())
    }

    fn push_lookup(&mut self, lookup: X509Lookup)
        ensures
            final(self)@ == (StoreView { lookups: old(self)@.lookups.push(lookup@), ..old(self)@ }),
    {
        self.lookups.push(lookup);
        assert(self@.lookups =~= old(self)@.lookups.push(lookup@));
    }

    /// Attaches the default locations: a lookup of the default certificate
    /// file and a hashed-directory lookup of the default directory.
    pub fn set_default_paths(&mut self, cert_file: &str, cert_dir: &str) -> (r: Result<(), ErrorStack>)
        ensures
            r is Err <==> cert_file.spec_bytes().len() == 0 || has_nul(cert_file.spec_bytes())
                || cert_dir.spec_bytes().len() == 0 || has_nul(cert_dir.spec_bytes()),
            r is Err ==> r->Err_0.reason == ErrorReason::InvalidDirectory && final(self)@ == old(self)@,
            r is Ok ==> final(self)@ == (StoreView {
                lookups: old(self)@.lookups.push(LookupView {
                    locations: seq![(cert_file.spec_bytes(), SslFiletype::Pem)],
                    ..empty_lookup(LookupKind::File)
                }).push(LookupView {
                    locations: seq![(cert_dir.spec_bytes(), SslFiletype::Pem)],
                    ..empty_lookup(LookupKind::HashDir)
                }),
                ..old(self)@
            }),
    {
        let mut file = X509Lookup::empty(LookupKind::File);
        if let Err(e) = file.add_dir(cert_file, SslFiletype::Pem) {
            return Err(e);
        }
        assert(file@.locations =~= seq![(cert_file.spec_bytes(), SslFiletype::Pem)]);
        let mut dir = X509Lookup::empty(LookupKind::HashDir);
        if let Err(e) = dir.add_dir(cert_dir, SslFiletype::Pem) {
            return Err(e);
        }
        assert(dir@.locations =~= seq![(cert_dir.spec_bytes(), SslFiletype::Pem)]);
        self.push_lookup(file);
        self.push_lookup(dir);
        Ok(())
    }

    /// Attaches a new, empty hashed-directory lookup and hands it out for
    /// configuration. Each call attaches a lookup of its own.
    pub fn add_lookup(&mut self, _method: HashDir) -> (r: Result<&mut X509Lookup, ErrorStack>)
        ensures
            r is Ok,
            (*r->Ok_0)@ == empty_lookup(LookupKind::HashDir),
            final(self)@ == (StoreView {
                lookups: old(self)@.lookups.push((*final(r->Ok_0))@),
                ..old(self)@
            }),
    {
        self.push_lookup(X509Lookup::empty(LookupKind::HashDir));
        proof {
            lemma_replace_last(self.lookups@, old(self)@.lookups, empty_lookup(LookupKind::HashDir));
        }
        let n = self.lookups.len() - 1;
        proof {
            assert(lookups_view(self.lookups@)[n as int] == self.lookups@[n as int]@);
        }
        Ok(&mut self.lookups[n])
    }

    /// The attached lookups, in the order they were attached.
    pub fn lookups(&self) -> (r: &Vec<X509Lookup>)
        ensures
            lookups_view(r@) == self@.lookups,
    {
        &self.lookups
    }

    /// The attached lookup at `index`, for configuration or for keeping
    /// what was loaded from its locations.
    pub fn lookup_mut(&mut self, index: usize) -> (r: Option<&mut X509Lookup>)
        ensures
            index >= old(self)@.lookups.len() <==> r is None,
            r is None ==> final(self)@ == old(self)@,
            r is Some ==> (*r->0)@ == old(self)@.lookups[index as int] && final(self)@ == (StoreView {
                lookups: old(self)@.lookups.update(index as int, (*final(r->0))@),
                ..old(self)@
            }),
    {
        if index >= self.lookups.len() {
            return None;
        }
        proof {
            lemma_replace_at(self.lookups@, index as int);
        }
        Some(&mut self.lookups[index])
    }

    /// Turns on verification flags in the store's parameters.
    pub fn set_flags(&mut self, flags: X509VerifyFlags) -> (r: Result<(), ErrorStack>)
        ensures
            r is Ok,
            final(self)@ == (StoreView {
                param: ParamView {
                    flags: old(self)@.param.flags | flags.bits,
                    ..old(self)@.param
                },
                ..old(self)@
            }),
    {
        self.param.set_flags(flags)
    }
}

/// An object held by a store.
pub enum X509Object {
    Cert(X509),
    Crl(X509Crl),
}

pub enum X509ObjectView {
    Cert(X509View),
    Crl(CrlView),
}

impl View for X509Object {
    type V = X509ObjectView;

    open spec fn view(&self) -> X509ObjectView {
        match self {
            X509Object::Cert(c) => X509ObjectView::Cert(c@),
            X509Object::Crl(c) => X509ObjectView::Crl(c@),
        }
    }
}

/// The objects of a store as they are listed: its certificates in the order
/// they were added, then its CRLs in the order they were added.
pub open spec fn objects_of(s: StoreView) -> Seq<X509ObjectView> {
    s.certs.map_values(|c: X509View| X509ObjectView::Cert(c)) + s.crls.map_values(
        |c: CrlView| X509ObjectView::Crl(c),
    )
}

/// A store of trusted certificates, CRLs and lookups, ready for use in
/// verification.
pub struct X509Store {
    certs: Vec<X509>,
    crls: Vec<X509Crl>,
    lookups: Vec<X509Lookup>,
    param: X509VerifyParam,
}

impl View for X509Store {
    type V = StoreView;

    closed spec fn view(&self) -> StoreView {
        StoreView {
            certs: certs_view(self.certs@),
            crls: crls_view(self.crls@),
            lookups: lookups_view(self.lookups@),
            param: self.param@,
        }
    }
}

impl X509Store {
    /// The certificates and CRLs the store holds itself.
    pub fn objects(&self) -> (r: Vec<X509Object>)
        ensures
            r@.map_values(|o: X509Object| o@) == objects_of(self@),
    {
        let mut r: Vec<X509Object> = Vec::new();
        let mut i: usize = 0;
        while i < self.certs.len()
            invariant
                i <= self.certs@.len(),
                r@.len() == i,
                forall|j: int| 0 <= j < i ==> (#[trigger] r@[j])@ == X509ObjectView::Cert(
                    self.certs@[j]@,
                ),
            decreases self.certs@.len() - i,
        {
            r.push(X509Object::Cert(self.certs[i].duplicate()));
            i = i + 1;
        }
        let n = self.certs.len();
        let mut k: usize = 0;
        while k < self.crls.len()
            invariant
                n == self.certs@.len(),
                k <= self.crls@.len(),
                r@.len() == n + k,
                forall|j: int| 0 <= j < n ==> (#[trigger] r@[j])@ == X509ObjectView::Cert(
                    self.certs@[j]@,
                ),
                forall|j: int| n <= j < n + k ==> (#[trigger] r@[j])@ == X509ObjectView::Crl(
                    self.crls@[j - n]@,
                ),
            decreases self.crls@.len() - k,
        {
            r.push(X509Object::Crl(self.crls[k].duplicate()));
            k = k + 1;
        }
        assert(r@.map_values(|o: X509Object| o@) =~= objects_of(self@));
        r
    }

    /// The trusted certificates added to the store.
    pub fn certs(&self) -> (r: &Vec<X509>)
        ensures
            certs_view(r@) == self@.certs,
    {
        &self.certs
    }

    /// The CRLs added to the store.
    pub fn crls(&self) -> (r: &Vec<X509Crl>)
        ensures
            crls_view(r@) == self@.crls,
    {
        &self.crls
    }

    /// The attached lookups, in the order they were attached.
    pub fn lookups(&self) -> (r: &Vec<X509Lookup>)
        ensures
            lookups_view(r@) == self@.lookups,
    {
        &self.lookups
    }

    /// The attached lookup at `index`, for keeping what was loaded from its
    /// locations while the store is in use. Only the lookup's cache changes:
    /// the store's own certificates, CRLs and parameters stay as built.
    pub fn lookup_mut(&mut self, index: usize) -> (r: Option<&mut X509Lookup>)
        ensures
            index >= old(self)@.lookups.len() <==> r is None,
            r is None ==> final(self)@ == old(self)@,
            r is Some ==> (*r->0)@ == old(self)@.lookups[index as int] && final(self)@ == (StoreView {
                lookups: old(self)@.lookups.update(index as int, (*final(r->0))@),
                ..old(self)@
            }),
    {
        if index >= self.lookups.len() {
            return None;
        }
        proof {
            lemma_replace_at(self.lookups@, index as int);
        }
        Some(&mut self.lookups[index])
    }

    /// The store's default verification parameters.
    pub fn param(&self) -> (r: &X509VerifyParam)
        ensures
            r@ == self@.param,
    {
        &self.param
    }

    /// Replaces the store's default verification parameters.
    pub fn set_param(&mut self, param: &X509VerifyParam) -> (r: Result<(), ErrorStack>)
        ensures
            r is Ok,
            final(self)@ == (StoreView { param: param@, ..old(self)@ }),
    {
        self.param = param.duplicate();
        Ok(())
    }
}

} // verus!
