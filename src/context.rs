//! Chain building and checking: the algorithm as spec functions, and
//! `verify_cert`, which carries it out.

use vstd::prelude::*;

use crate::store::{
    LookupKind, certs_view, crl_index_from, crls_view, lookups_view, LookupView, StoreView, X509Store,
};
use crate::verify::{
    effective_param, has_flag, ParamView, X509CheckFlags, X509VerifyFlags, X509VerifyParam,
    DEFAULT_DEPTH,
};
use crate::x509::{self_signed, CertInfo, CrlView, X509Crl, X509View, X509};

verus! {

pub const X509_V_OK: i32 = 0;
pub const X509_V_ERR_UNABLE_TO_GET_ISSUER_CERT: i32 = 2;
pub const X509_V_ERR_UNABLE_TO_GET_CRL: i32 = 3;
pub const X509_V_ERR_CERT_SIGNATURE_FAILURE: i32 = 7;
pub const X509_V_ERR_CRL_SIGNATURE_FAILURE: i32 = 8;
pub const X509_V_ERR_CERT_NOT_YET_VALID: i32 = 9;
pub const X509_V_ERR_CERT_HAS_EXPIRED: i32 = 10;
pub const X509_V_ERR_CRL_NOT_YET_VALID: i32 = 11;
pub const X509_V_ERR_CRL_HAS_EXPIRED: i32 = 12;
pub const X509_V_ERR_DEPTH_ZERO_SELF_SIGNED_CERT: i32 = 18;
pub const X509_V_ERR_SELF_SIGNED_CERT_IN_CHAIN: i32 = 19;
pub const X509_V_ERR_UNABLE_TO_GET_ISSUER_CERT_LOCALLY: i32 = 20;
pub const X509_V_ERR_CERT_CHAIN_TOO_LONG: i32 = 22;
pub const X509_V_ERR_CERT_REVOKED: i32 = 23;
pub const X509_V_ERR_INVALID_CA: i32 = 24;
pub const X509_V_ERR_PATH_LENGTH_EXCEEDED: i32 = 25;
pub const X509_V_ERR_HOSTNAME_MISMATCH: i32 = 62;
pub const X509_V_ERR_IP_ADDRESS_MISMATCH: i32 = 64;

/// Everything one verification reads, as plain values.
pub struct VerifyCtx {
    /// The certificates offered with the leaf, not trusted by themselves.
    pub untrusted: Seq<CertInfo>,
    /// The store's certificates, then those of its lookups in order.
    pub trusted: Seq<CertInfo>,
    /// The store's CRLs, then those of its lookups in order.
    pub crls: Seq<CrlView>,
    pub flags: u64,
    /// The most certificates below the trust anchor.
    pub limit: nat,
    /// The instant at which validity is checked.
    pub time: i64,
    pub host: Option<Seq<u8>>,
    pub hostflags: u32,
    pub ip: Option<Seq<u8>>,
}

pub open spec fn depth_limit(p: ParamView) -> nat {
    if p.depth < 0 { DEFAULT_DEPTH as nat } else { p.depth as nat }
}

pub open spec fn check_time(p: ParamView, now: i64) -> i64 {
    if has_flag(p.flags, X509VerifyFlags::USE_CHECK_TIME) { p.time } else { now }
}

pub open spec fn infos(cs: Seq<X509View>) -> Seq<CertInfo> {
    cs.map_values(|c: X509View| c.info)
}

pub open spec fn lookup_certs(ls: Seq<LookupView>) -> Seq<CertInfo>
    decreases ls.len(),
{
    if ls.len() == 0 {
        Seq::empty()
    } else {
        lookup_certs(ls.drop_last()) + infos(ls.last().certs)
    }
}

pub open spec fn lookup_crls(ls: Seq<LookupView>) -> Seq<CrlView>
    decreases ls.len(),
{
    if ls.len() == 0 {
        Seq::empty()
    } else {
        lookup_crls(ls.drop_last()) + ls.last().crls
    }
}

/// The context of verifying with `store`, the call's parameters `param`, the
/// offered certificates `untrusted` and the current time `now`.
pub open spec fn context_of(
    store: StoreView,
    param: Option<ParamView>,
    untrusted: Seq<X509View>,
    now: i64,
) -> VerifyCtx {
    let p = effective_param(store.param, param);
    VerifyCtx {
        untrusted: infos(untrusted),
        trusted: infos(store.certs) + lookup_certs(store.lookups),
        crls: store.crls + lookup_crls(store.lookups),
        flags: p.flags,
        limit: depth_limit(p),
        time: check_time(p, now),
        host: p.host,
        hostflags: p.hostflags,
        ip: p.ip,
    }
}

/// The index of the first certificate of `pool`, from `i` on, whose subject is `name`.
pub open spec fn subject_index_from(pool: Seq<CertInfo>, name: u32, i: int) -> Option<int>
    decreases pool.len() - i,
{
    if i < 0 || i >= pool.len() {
        None
    } else if pool[i].subject_hash == name {
        Some(i)
    } else {
        subject_index_from(pool, name, i + 1)
    }
}

pub open spec fn first_subject(pool: Seq<CertInfo>, name: u32) -> Option<CertInfo> {
    match subject_index_from(pool, name, 0) {
        Some(k) => Some(pool[k]),
        None => None,
    }
}

/// The index of the first certificate of `pool`, from `i` on, whose subject
/// is `name` and whose key is `key`.
pub open spec fn signer_index_from(pool: Seq<CertInfo>, name: u32, key: u64, i: int) -> Option<int>
    decreases pool.len() - i,
{
    if i < 0 || i >= pool.len() {
        None
    } else if pool[i].subject_hash == name && pool[i].key_id == key {
        Some(i)
    } else {
        signer_index_from(pool, name, key, i + 1)
    }
}

/// The first certificate of `pool` that is named as the issuer of `c` and
/// whose key made the signature of `c`.
pub open spec fn first_signer(pool: Seq<CertInfo>, c: CertInfo) -> Option<CertInfo> {
    match signer_index_from(pool, c.issuer_hash, c.signer_key_id, 0) {
        Some(k) => Some(pool[k]),
        None => None,
    }
}

/// The issuer chosen for `c`. A certificate named as its issuer whose key
/// made its signature is preferred; only where there is none is the first
/// certificate named as its issuer taken, whose signature check then fails.
/// Each is searched among the offered certificates before the trusted ones,
/// or the other way round under `TRUSTED_FIRST`.
pub open spec fn find_issuer(ctx: VerifyCtx, c: CertInfo) -> Option<CertInfo> {
    let uk = first_signer(ctx.untrusted, c);
    let tk = first_signer(ctx.trusted, c);
    let un = first_subject(ctx.untrusted, c.issuer_hash);
    let tn = first_subject(ctx.trusted, c.issuer_hash);
    if has_flag(ctx.flags, X509VerifyFlags::TRUSTED_FIRST) {
        if tk is Some { tk } else if uk is Some { uk } else if tn is Some { tn } else { un }
    } else {
        if uk is Some { uk } else if tk is Some { tk } else if un is Some { un } else { tn }
    }
}

pub enum ChainBuild {
    /// A chain from the leaf up to a trust anchor.
    Anchored(Seq<CertInfo>),
    /// Building stopped with this error; the chain so far ends at the
    /// certificate it stopped at.
    Failed(i32, Seq<CertInfo>),
}

/// Chain building from a chain whose last certificate is to be continued.
pub open spec fn build_from(ctx: VerifyCtx, chain: Seq<CertInfo>) -> ChainBuild
    decreases ctx.limit + 1 - chain.len(),
{
    let c = chain.last();
    let anchored = ctx.trusted.contains(c);
    if self_signed(c) {
        if anchored {
            ChainBuild::Anchored(chain)
        } else if chain.len() == 1 {
            ChainBuild::Failed(X509_V_ERR_DEPTH_ZERO_SELF_SIGNED_CERT, chain)
        } else {
            ChainBuild::Failed(X509_V_ERR_SELF_SIGNED_CERT_IN_CHAIN, chain)
        }
    } else if has_flag(ctx.flags, X509VerifyFlags::PARTIAL_CHAIN) && anchored {
        ChainBuild::Anchored(chain)
    } else if chain.len() > ctx.limit {
        ChainBuild::Failed(X509_V_ERR_CERT_CHAIN_TOO_LONG, chain)
    } else {
        match find_issuer(ctx, c) {
            None => if anchored {
                ChainBuild::Failed(X509_V_ERR_UNABLE_TO_GET_ISSUER_CERT, chain)
            } else {
                ChainBuild::Failed(X509_V_ERR_UNABLE_TO_GET_ISSUER_CERT_LOCALLY, chain)
            },
            Some(issuer) => build_from(ctx, chain.push(issuer)),
        }
    }
}

pub open spec fn build_chain(ctx: VerifyCtx, leaf: CertInfo) -> ChainBuild {
    build_from(ctx, seq![leaf])
}

/// The context of the search for an alternative chain: trusted
/// certificates are tried first.
pub open spec fn alt_ctx(ctx: VerifyCtx) -> VerifyCtx {
    VerifyCtx { flags: ctx.flags | X509VerifyFlags::TRUSTED_FIRST, ..ctx }
}

/// Whether a failed chain is searched again for an alternative: unless
/// `NO_ALT_CHAINS` is set, or the trusted certificates were tried first
/// already.
pub open spec fn alt_chains_allowed(flags: u64) -> bool {
    !has_flag(flags, X509VerifyFlags::NO_ALT_CHAINS) && !has_flag(flags, X509VerifyFlags::TRUSTED_FIRST)
}

/// The chain verification goes on with: the one built, or where building
/// failed and alternatives are allowed, one built with trusted certificates
/// first, if that one reaches an anchor; else the first failure stands.
pub open spec fn chain_for(ctx: VerifyCtx, leaf: CertInfo) -> ChainBuild {
    match build_chain(ctx, leaf) {
        ChainBuild::Anchored(s) => ChainBuild::Anchored(s),
        ChainBuild::Failed(code, s) => if alt_chains_allowed(ctx.flags) && build_chain(
            alt_ctx(ctx),
            leaf,
        ) is Anchored {
            build_chain(alt_ctx(ctx), leaf)
        } else {
            ChainBuild::Failed(code, s)
        },
    }
}

/// The certificate whose key signed `chain[i]`: the next one up, or itself at the top.
pub open spec fn issuer_at(chain: Seq<CertInfo>, i: int) -> CertInfo {
    if i + 1 < chain.len() { chain[i + 1] } else { chain[i] }
}

pub open spec fn time_error(ctx: VerifyCtx, c: CertInfo) -> Option<i32> {
    if has_flag(ctx.flags, X509VerifyFlags::NO_CHECK_TIME) {
        None
    } else if ctx.time < c.not_before {
        Some(X509_V_ERR_CERT_NOT_YET_VALID)
    } else if ctx.time > c.not_after {
        Some(X509_V_ERR_CERT_HAS_EXPIRED)
    } else {
        None
    }
}

pub open spec fn signature_error(chain: Seq<CertInfo>, i: int) -> Option<i32> {
    if i + 1 < chain.len() && chain[i + 1].key_id != chain[i].signer_key_id {
        Some(X509_V_ERR_CERT_SIGNATURE_FAILURE)
    } else {
        None
    }
}

/// An issuer must be a CA, and no more intermediate certificates may stand
/// below it than its path length allows.
pub open spec fn ca_error(chain: Seq<CertInfo>, i: int) -> Option<i32> {
    if i >= 1 && !chain[i].is_ca {
        Some(X509_V_ERR_INVALID_CA)
    } else if i >= 1 && chain[i].path_len >= 0 && i - 1 > chain[i].path_len {
        Some(X509_V_ERR_PATH_LENGTH_EXCEEDED)
    } else {
        None
    }
}

/// Whether revocation of `chain[i]` is checked: the leaf's under
/// `CRL_CHECK`, every certificate's under `CRL_CHECK_ALL`.
pub open spec fn crl_checked(flags: u64, i: int) -> bool {
    has_flag(flags, X509VerifyFlags::CRL_CHECK_ALL) || (has_flag(flags, X509VerifyFlags::CRL_CHECK)
        && i == 0)
}

pub open spec fn crl_error(ctx: VerifyCtx, chain: Seq<CertInfo>, i: int) -> Option<i32> {
    let c = chain[i];
    if !crl_checked(ctx.flags, i) {
        None
    } else {
        match crl_index_from(ctx.crls, c.issuer_hash, 0) {
            None => Some(X509_V_ERR_UNABLE_TO_GET_CRL),
            Some(k) => {
                let crl = ctx.crls[k];
                let timed = !has_flag(ctx.flags, X509VerifyFlags::NO_CHECK_TIME);
                if crl.signer_key_id != issuer_at(chain, i).key_id {
                    Some(X509_V_ERR_CRL_SIGNATURE_FAILURE)
                } else if timed && ctx.time < crl.last_update {
                    Some(X509_V_ERR_CRL_NOT_YET_VALID)
                } else if timed && crl.next_update is Some && ctx.time > crl.next_update->0 {
                    Some(X509_V_ERR_CRL_HAS_EXPIRED)
                } else if crl.revoked.contains(c.serial) {
                    Some(X509_V_ERR_CERT_REVOKED)
                } else {
                    None
                }
            },
        }
    }
}

/// The first check that `chain[i]` fails: validity window, signature, CA
/// constraints, revocation.
pub open spec fn cert_error(ctx: VerifyCtx, chain: Seq<CertInfo>, i: int) -> Option<i32> {
    if time_error(ctx, chain[i]) is Some {
        time_error(ctx, chain[i])
    } else if signature_error(chain, i) is Some {
        signature_error(chain, i)
    } else if ca_error(chain, i) is Some {
        ca_error(chain, i)
    } else {
        crl_error(ctx, chain, i)
    }
}

/// The first failing check from `chain[i]` upward, with its depth.
pub open spec fn chain_error_from(ctx: VerifyCtx, chain: Seq<CertInfo>, i: int) -> Option<(i32, int)>
    decreases chain.len() - i,
{
    if i < 0 || i >= chain.len() {
        None
    } else {
        match cert_error(ctx, chain, i) {
            Some(code) => Some((code, i)),
            None => chain_error_from(ctx, chain, i + 1),
        }
    }
}

pub open spec fn lower(b: u8) -> u8 {
    if 65 <= b <= 90 { (b + 32) as u8 } else { b }
}

pub open spec fn eq_nocase(a: Seq<u8>, b: Seq<u8>) -> bool {
    a.len() == b.len() && forall|i: int| 0 <= i < a.len() ==> lower(#[trigger] a[i]) == lower(b[i])
}

/// The index of the first dot of `s` from `i` on, or the length of `s`.
pub open spec fn dot_from(s: Seq<u8>, i: int) -> int
    decreases s.len() - i,
{
    if i < 0 || i >= s.len() {
        s.len() as int
    } else if s[i] == 46u8 {
        i
    } else {
        dot_from(s, i + 1)
    }
}

/// A name `*.rest`, where `rest` holds a dot itself, matches a host that
/// ends in `.rest` after a part that is not empty. That part is one label,
/// without dots, unless `MULTI_LABEL_WILDCARDS` is set. Wildcards in part of
/// a label are never accepted, so `NO_PARTIAL_WILDCARDS` always holds.
pub open spec fn wildcard_match(name: Seq<u8>, host: Seq<u8>, hostflags: u32) -> bool {
    let n = name.len() - 1;
    &&& name.len() >= 2
    &&& name[0] == 42u8
    &&& name[1] == 46u8
    &&& dot_from(name, 2) < name.len()
    &&& host.len() > n
    &&& eq_nocase(name.subrange(1, name.len() as int), host.subrange(host.len() - n, host.len() as int))
    &&& (hostflags & X509CheckFlags::MULTI_LABEL_WILDCARDS != 0 || dot_from(host, 0) == host.len() - n)
}

/// An expected host `.domain` matches a name that ends in `.domain` after a
/// part that is not empty; under `SINGLE_LABEL_SUBDOMAINS` that part must be
/// one label, without dots.
pub open spec fn subdomain_match(name: Seq<u8>, host: Seq<u8>, hostflags: u32) -> bool {
    let start = name.len() - host.len();
    &&& host.len() >= 2
    &&& host[0] == 46u8
    &&& name.len() > host.len()
    &&& eq_nocase(name.subrange(start, name.len() as int), host)
    &&& (hostflags & X509CheckFlags::SINGLE_LABEL_SUBDOMAINS == 0 || dot_from(name, 0) == start)
}

/// A certificate name matches the expected host where the two are equal up
/// to ASCII case, where the name is a wildcard that matches it and
/// `NO_WILDCARDS` is off, or where the host names a parent domain of it.
/// No subject common name is held, so `ALWAYS_CHECK_SUBJECT` and
/// `NEVER_CHECK_SUBJECT` change nothing.
pub open spec fn host_matches(name: Seq<u8>, host: Seq<u8>, hostflags: u32) -> bool {
    ||| eq_nocase(name, host)
    ||| hostflags & X509CheckFlags::NO_WILDCARDS == 0 && wildcard_match(name, host, hostflags)
    ||| subdomain_match(name, host, hostflags)
}

pub open spec fn host_error(ctx: VerifyCtx, leaf: X509View) -> Option<i32> {
    match ctx.host {
        Some(h) => if exists|k: int|
            0 <= k < leaf.dns_names.len() && host_matches(#[trigger] leaf.dns_names[k], h, ctx.hostflags) {
            None
        } else {
            Some(X509_V_ERR_HOSTNAME_MISMATCH)
        },
        None => None,
    }
}

pub open spec fn ip_error(ctx: VerifyCtx, leaf: X509View) -> Option<i32> {
    match ctx.ip {
        Some(a) => if leaf.ip_addrs.contains(a) {
            None
        } else {
            Some(X509_V_ERR_IP_ADDRESS_MISMATCH)
        },
        None => None,
    }
}

/// The result of a verification as plain values.
pub struct OutcomeView {
    pub code: i32,
    pub depth: int,
    pub current: Option<CertInfo>,
    pub chain: Seq<CertInfo>,
}

/// The verification of `leaf`: build the chain, check each certificate from
/// the leaf upward, then the expected host and address against the leaf.
pub open spec fn verify_outcome(ctx: VerifyCtx, leaf: X509View) -> OutcomeView {
    match chain_for(ctx, leaf.info) {
        ChainBuild::Failed(code, ch) => OutcomeView {
            code,
            depth: ch.len() - 1,
            current: Some(ch.last()),
            chain: ch,
        },
        ChainBuild::Anchored(ch) => match chain_error_from(ctx, ch, 0) {
            Some((code, i)) => OutcomeView { code, depth: i, current: Some(ch[i]), chain: ch },
            None => match host_error(ctx, leaf) {
                Some(code) => OutcomeView { code, depth: 0, current: Some(leaf.info), chain: ch },
                None => match ip_error(ctx, leaf) {
                    Some(code) => OutcomeView { code, depth: 0, current: Some(leaf.info), chain: ch },
                    None => OutcomeView { code: X509_V_OK, depth: 0, current: None, chain: ch },
                },
            },
        },
    }
}

/// The revocation errors.
pub open spec fn is_crl_error(code: i32) -> bool {
    code == X509_V_ERR_UNABLE_TO_GET_CRL || code == X509_V_ERR_CRL_SIGNATURE_FAILURE || code
        == X509_V_ERR_CRL_NOT_YET_VALID || code == X509_V_ERR_CRL_HAS_EXPIRED || code
        == X509_V_ERR_CERT_REVOKED
}

/// The context as the verification holds it.
struct Ctx {
    untrusted: Vec<CertInfo>,
    trusted: Vec<CertInfo>,
    crls: Vec<X509Crl>,
    flags: u64,
    limit: usize,
    time: i64,
    host: Option<Vec<u8>>,
    hostflags: u32,
    ip: Option<Vec<u8>>,
}

impl Ctx {
    spec fn view(&self) -> VerifyCtx {
        VerifyCtx {
            untrusted: self.untrusted@,
            trusted: self.trusted@,
            crls: crls_view(self.crls@),
            flags: self.flags,
            limit: self.limit as nat,
            time: self.time,
            host: crate::verify::opt_bytes_view(self.host),
            hostflags: self.hostflags,
            ip: crate::verify::opt_bytes_view(self.ip),
        }
    }
}

fn subject_index(pool: &Vec<CertInfo>, name: u32) -> (r: Option<usize>)
    ensures
        match r {
            Some(k) => k < pool@.len() && subject_index_from(pool@, name, 0) == Some(k as int),
            None => subject_index_from(pool@, name, 0) is None,
        },
{
    let mut i: usize = 0;
    while i < pool.len()
        invariant
            i <= pool@.len(),
            subject_index_from(pool@, name, 0) == subject_index_from(pool@, name, i as int),
        decreases pool@.len() - i,
    {
        if pool[i].subject_hash == name {
            return Some(i);
        }
        i = i + 1;
    }
    None
}

fn contains_info(pool: &Vec<CertInfo>, c: CertInfo) -> (r: bool)
    ensures
        r == pool@.contains(c),
{
    let mut i: usize = 0;
    while i < pool.len()
        invariant
            i <= pool@.len(),
            forall|j: int| 0 <= j < i ==> pool@[j] != c,
        decreases pool@.len() - i,
    {
        if pool[i] == c {
            assert(pool@[i as int] == c);
            return true;
        }
        i = i + 1;
    }
    false
}

fn signer_index(pool: &Vec<CertInfo>, name: u32, key: u64) -> (r: Option<usize>)
    ensures
        match r {
            Some(k) => k < pool@.len() && signer_index_from(pool@, name, key, 0) == Some(k as int),
            None => signer_index_from(pool@, name, key, 0) is None,
        },
{
    let mut i: usize = 0;
    while i < pool.len()
        invariant
            i <= pool@.len(),
            signer_index_from(pool@, name, key, 0) == signer_index_from(pool@, name, key, i as int),
        decreases pool@.len() - i,
    {
        if pool[i].subject_hash == name && pool[i].key_id == key {
            return Some(i);
        }
        i = i + 1;
    }
    None
}

fn find_issuer_exec(ctx: &Ctx, c: CertInfo) -> (r: Option<CertInfo>)
    ensures
        r == find_issuer(ctx.view(), c),
{
    let uk = match signer_index(&ctx.untrusted, c.issuer_hash, c.signer_key_id) {
        Some(k) => Some(ctx.untrusted[k]),
        None => None,
    };
    let tk = match signer_index(&ctx.trusted, c.issuer_hash, c.signer_key_id) {
        Some(k) => Some(ctx.trusted[k]),
        None => None,
    };
    let un = match subject_index(&ctx.untrusted, c.issuer_hash) {
        Some(k) => Some(ctx.untrusted[k]),
        None => None,
    };
    let tn = match subject_index(&ctx.trusted, c.issuer_hash) {
        Some(k) => Some(ctx.trusted[k]),
        None => None,
    };
    if ctx.flags & X509VerifyFlags::TRUSTED_FIRST != 0 {
        if tk.is_some() { tk } else if uk.is_some() { uk } else if tn.is_some() { tn } else { un }
    } else {
        if uk.is_some() { uk } else if tk.is_some() { tk } else if un.is_some() { un } else { tn }
    }
}

/// Builds the chain of `leaf`; the error is `None` where it reached an anchor.
fn build_chain_exec(ctx: &Ctx, leaf: CertInfo) -> (r: (Vec<CertInfo>, Option<i32>))
    ensures
        r.0@.len() >= 1,
        match build_chain(ctx.view(), leaf) {
            ChainBuild::Anchored(s) => r.1 is None && r.0@ == s,
            ChainBuild::Failed(code, s) => r.1 == Some(code) && r.0@ == s,
        },
{
    let mut chain: Vec<CertInfo> = Vec::new();
    chain.push(leaf);
    assert(chain@ =~= seq![leaf]);
    loop
        invariant
            chain@.len() >= 1,
            chain@.len() <= ctx.limit + 1,
            build_from(ctx.view(), chain@) == build_chain(ctx.view(), leaf),
        decreases ctx.limit + 1 - chain@.len(),
    {
        let c = chain[chain.len() - 1];
        let anchored = contains_info(&ctx.trusted, c);
        if c.is_self_signed() {
            if anchored {
                return (chain, None);
            } else if chain.len() == 1 {
                return (chain, Some(X509_V_ERR_DEPTH_ZERO_SELF_SIGNED_CERT));
            } else {
                return (chain, Some(X509_V_ERR_SELF_SIGNED_CERT_IN_CHAIN));
            }
        }
        if ctx.flags & X509VerifyFlags::PARTIAL_CHAIN != 0 && anchored {
            return (chain, None);
        }
        if chain.len() > ctx.limit {
            return (chain, Some(X509_V_ERR_CERT_CHAIN_TOO_LONG));
        }
        match find_issuer_exec(ctx, c) {
            None => {
                if anchored {
                    return (chain, Some(X509_V_ERR_UNABLE_TO_GET_ISSUER_CERT));
                } else {
                    return (chain, Some(X509_V_ERR_UNABLE_TO_GET_ISSUER_CERT_LOCALLY));
                }
            },
            Some(issuer) => {
                chain.push(issuer);
            },
        }
    }
}


fn crl_index(crls: &Vec<X509Crl>, issuer_hash: u32) -> (r: Option<usize>)
    ensures
        match r {
            Some(k) => k < crls@.len() && crl_index_from(crls_view(crls@), issuer_hash, 0) == Some(
                k as int,
            ),
            None => crl_index_from(crls_view(crls@), issuer_hash, 0) is None,
        },
{
    let mut i: usize = 0;
    while i < crls.len()
        invariant
            i <= crls@.len(),
            crl_index_from(crls_view(crls@), issuer_hash, 0) == crl_index_from(
                crls_view(crls@),
                issuer_hash,
                i as int,
            ),
        decreases crls@.len() - i,
    {
        if crls[i].issuer_hash == issuer_hash {
            return Some(i);
        }
        i = i + 1;
    }
    None
}

fn time_error_exec(ctx: &Ctx, c: CertInfo) -> (r: Option<i32>)
    ensures
        r == time_error(ctx.view(), c),
{
    if ctx.flags & X509VerifyFlags::NO_CHECK_TIME != 0 {
        None
    } else if ctx.time < c.not_before {
        Some(X509_V_ERR_CERT_NOT_YET_VALID)
    } else if ctx.time > c.not_after {
        Some(X509_V_ERR_CERT_HAS_EXPIRED)
    } else {
        None
    }
}

fn crl_error_exec(ctx: &Ctx, chain: &Vec<CertInfo>, i: usize) -> (r: Option<i32>)
    requires
        i < chain@.len(),
    ensures
        r == crl_error(ctx.view(), chain@, i as int),
{
    let c = chain[i];
    let checked = ctx.flags & X509VerifyFlags::CRL_CHECK_ALL != 0 || (ctx.flags
        & X509VerifyFlags::CRL_CHECK != 0 && i == 0);
    if !checked {
        return None;
    }
    match crl_index(&ctx.crls, c.issuer_hash) {
        None => Some(X509_V_ERR_UNABLE_TO_GET_CRL),
        Some(k) => {
            let crl = &ctx.crls[k];
            assert(crls_view(ctx.crls@)[k as int] == crl@);
            let timed = ctx.flags & X509VerifyFlags::NO_CHECK_TIME == 0;
            let issuer = if i < chain.len() - 1 { chain[i + 1] } else { c };
            if crl.signer_key_id != issuer.key_id {
                Some(X509_V_ERR_CRL_SIGNATURE_FAILURE)
            } else if timed && ctx.time < crl.last_update {
                Some(X509_V_ERR_CRL_NOT_YET_VALID)
            } else if timed && crl.next_update.is_some() && ctx.time > crl.next_update.unwrap() {
                Some(X509_V_ERR_CRL_HAS_EXPIRED)
            } else if crl.is_revoked(c.serial) {
                Some(X509_V_ERR_CERT_REVOKED)
            } else {
                None
            }
        },
    }
}

fn cert_error_exec(ctx: &Ctx, chain: &Vec<CertInfo>, i: usize) -> (r: Option<i32>)
    requires
        i < chain@.len(),
    ensures
        r == cert_error(ctx.view(), chain@, i as int),
{
    let c = chain[i];
    let t = time_error_exec(ctx, c);
    if t.is_some() {
        return t;
    }
    if i < chain.len() - 1 && chain[i + 1].key_id != c.signer_key_id {
        return Some(X509_V_ERR_CERT_SIGNATURE_FAILURE);
    }
    if i >= 1 && !c.is_ca {
        return Some(X509_V_ERR_INVALID_CA);
    }
    if i >= 1 && c.path_len >= 0 && i - 1 > c.path_len as usize {
        return Some(X509_V_ERR_PATH_LENGTH_EXCEEDED);
    }
    crl_error_exec(ctx, chain, i)
}

fn chain_error_exec(ctx: &Ctx, chain: &Vec<CertInfo>) -> (r: Option<(i32, usize)>)
    ensures
        match r {
            Some((code, i)) => i < chain@.len() && chain_error_from(ctx.view(), chain@, 0) == Some(
                (code, i as int),
            ),
            None => chain_error_from(ctx.view(), chain@, 0) is None,
        },
{
    let mut i: usize = 0;
    while i < chain.len()
        invariant
            i <= chain@.len(),
            chain_error_from(ctx.view(), chain@, 0) == chain_error_from(ctx.view(), chain@, i as int),
        decreases chain@.len() - i,
    {
        match cert_error_exec(ctx, chain, i) {
            Some(code) => {
                return Some((code, i));
            },
            None => {},
        }
        i = i + 1;
    }
    None
}

fn lower_exec(b: u8) -> (r: u8)
    ensures
        r == lower(b),
{
    if 65 <= b && b <= 90 { b + 32 } else { b }
}

/// Whether `a[a_start..]` and `b[b_start..]` are equal up to ASCII case.
fn eq_nocase_from(a: &Vec<u8>, a_start: usize, b: &Vec<u8>, b_start: usize) -> (r: bool)
    requires
        a_start <= a@.len(),
        b_start <= b@.len(),
    ensures
        r == eq_nocase(
            a@.subrange(a_start as int, a@.len() as int),
            b@.subrange(b_start as int, b@.len() as int),
        ),
{
    let ghost sa = a@.subrange(a_start as int, a@.len() as int);
    let ghost sb = b@.subrange(b_start as int, b@.len() as int);
    if a.len() - a_start != b.len() - b_start {
        return false;
    }
    let n = a.len() - a_start;
    let a_len = a.len();
    let b_len = b.len();
    let mut j: usize = 0;
    while j < n
        invariant
            a_start + n == a@.len(),
            b_start + n == b@.len(),
            a_len == a@.len(),
            b_len == b@.len(),
            a_start <= a@.len(),
            b_start <= b@.len(),
            sa == a@.subrange(a_start as int, a@.len() as int),
            sb == b@.subrange(b_start as int, b@.len() as int),
            j <= n,
            forall|k: int| 0 <= k < j ==> lower(#[trigger] sa[k]) == lower(sb[k]),
        decreases n - j,
    {
        if lower_exec(a[a_start + j]) != lower_exec(b[b_start + j]) {
            assert(sa[j as int] == a@[a_start + j]);
            assert(sb[j as int] == b@[b_start + j]);
            return false;
        }
        j = j + 1;
    }
    true
}

fn dot_index(s: &Vec<u8>, start: usize) -> (r: usize)
    requires
        start <= s@.len(),
    ensures
        r as int == dot_from(s@, start as int),
        r <= s@.len(),
{
    let mut i: usize = start;
    while i < s.len()
        invariant
            start <= i <= s@.len(),
            dot_from(s@, start as int) == dot_from(s@, i as int),
        decreases s@.len() - i,
    {
        if s[i] == 46u8 {
            return i;
        }
        i = i + 1;
    }
    i
}

fn wildcard_match_exec(name: &Vec<u8>, host: &Vec<u8>, hostflags: u32) -> (r: bool)
    ensures
        r == wildcard_match(name@, host@, hostflags),
{
    if name.len() < 2 || name[0] != 42u8 || name[1] != 46u8 {
        return false;
    }
    if dot_index(name, 2) >= name.len() {
        return false;
    }
    let n = name.len() - 1;
    if host.len() <= n {
        return false;
    }
    let start = host.len() - n;
    if !eq_nocase_from(name, 1, host, start) {
        return false;
    }
    hostflags & X509CheckFlags::MULTI_LABEL_WILDCARDS != 0 || dot_index(host, 0) == start
}

fn subdomain_match_exec(name: &Vec<u8>, host: &Vec<u8>, hostflags: u32) -> (r: bool)
    ensures
        r == subdomain_match(name@, host@, hostflags),
{
    if host.len() < 2 || host[0] != 46u8 || name.len() <= host.len() {
        return false;
    }
    let start = name.len() - host.len();
    assert(host@.subrange(0, host@.len() as int) =~= host@);
    if !eq_nocase_from(name, start, host, 0) {
        return false;
    }
    hostflags & X509CheckFlags::SINGLE_LABEL_SUBDOMAINS == 0 || dot_index(name, 0) == start
}

fn host_matches_exec(name: &Vec<u8>, host: &Vec<u8>, hostflags: u32) -> (r: bool)
    ensures
        r == host_matches(name@, host@, hostflags),
{
    assert(name@.subrange(0, name@.len() as int) =~= name@);
    assert(host@.subrange(0, host@.len() as int) =~= host@);
    if eq_nocase_from(name, 0, host, 0) {
        return true;
    }
    if hostflags & X509CheckFlags::NO_WILDCARDS == 0 && wildcard_match_exec(name, host, hostflags) {
        return true;
    }
    subdomain_match_exec(name, host, hostflags)
}

fn host_error_exec(ctx: &Ctx, leaf: &X509) -> (r: Option<i32>)
    ensures
        r == host_error(ctx.view(), leaf@),
{
    match &ctx.host {
        None => None,
        Some(h) => {
            let mut k: usize = 0;
            while k < leaf.dns_names.len()
                invariant
                    k <= leaf.dns_names@.len(),
                    ctx.view().host == Some(h@),
                    forall|j: int|
                        0 <= j < k ==> !host_matches(
                            #[trigger] leaf@.dns_names[j],
                            h@,
                            ctx.hostflags,
                        ),
                decreases leaf.dns_names@.len() - k,
            {
                if host_matches_exec(&leaf.dns_names[k], h, ctx.hostflags) {
                    assert(leaf@.dns_names[k as int] == leaf.dns_names@[k as int]@);
                    return None;
                }
                k = k + 1;
            }
            Some(X509_V_ERR_HOSTNAME_MISMATCH)
        },
    }
}

fn ip_error_exec(ctx: &Ctx, leaf: &X509) -> (r: Option<i32>)
    ensures
        r == ip_error(ctx.view(), leaf@),
{
    match &ctx.ip {
        None => None,
        Some(a) => {
            let mut k: usize = 0;
            while k < leaf.ip_addrs.len()
                invariant
                    k <= leaf.ip_addrs@.len(),
                    ctx.view().ip == Some(a@),
                    forall|j: int| 0 <= j < k ==> leaf@.ip_addrs[j] != a@,
                decreases leaf.ip_addrs@.len() - k,
            {
                if crate::store::bytes_equal(&leaf.ip_addrs[k], a) {
                    assert(leaf@.ip_addrs[k as int] == a@);
                    return None;
                }
                k = k + 1;
            }
            Some(X509_V_ERR_IP_ADDRESS_MISMATCH)
        },
    }
}


fn append_infos(r: &mut Vec<CertInfo>, certs: &Vec<X509>)
    ensures
        final(r)@ == old(r)@ + infos(certs_view(certs@)),
{
    let ghost start = r@;
    let mut i: usize = 0;
    while i < certs.len()
        invariant
            i <= certs@.len(),
            r@ == start + infos(certs_view(certs@)).take(i as int),
        decreases certs@.len() - i,
    {
        r.push(certs[i].info);
        i = i + 1;
        assert(r@ =~= start + infos(certs_view(certs@)).take(i as int));
    }
    assert(infos(certs_view(certs@)).take(i as int) =~= infos(certs_view(certs@)));
}

pub(crate) fn append_crls(r: &mut Vec<X509Crl>, crls: &Vec<X509Crl>)
    ensures
        crls_view(final(r)@) == crls_view(old(r)@) + crls_view(crls@),
{
    let ghost start = r@;
    let n = r.len();
    let mut i: usize = 0;
    while i < crls.len()
        invariant
            n == start.len(),
            i <= crls@.len(),
            r@.len() == n + i,
            forall|j: int| 0 <= j < n ==> (#[trigger] r@[j])@ == start[j]@,
            forall|j: int| n <= j < n + i ==> (#[trigger] r@[j])@ == crls@[j - n]@,
        decreases crls@.len() - i,
    {
        r.push(crls[i].duplicate());
        i = i + 1;
    }
    assert(crls_view(r@) =~= crls_view(start) + crls_view(crls@));
}

/// The trusted certificates and the CRLs of a store, its own before those of
/// its lookups.
fn store_pools(store: &X509Store) -> (r: (Vec<CertInfo>, Vec<X509Crl>))
    ensures
        r.0@ == infos(store@.certs) + lookup_certs(store@.lookups),
        crls_view(r.1@) == store@.crls + lookup_crls(store@.lookups),
{
    let mut certs: Vec<CertInfo> = Vec::new();
    append_infos(&mut certs, store.certs());
    let mut crls: Vec<X509Crl> = Vec::new();
    append_crls(&mut crls, store.crls());
    assert(certs@ =~= infos(store@.certs));
    assert(crls_view(crls@) =~= store@.crls);
    let lookups = store.lookups();
    let ghost ls = store@.lookups;
    assert(ls.take(0) =~= Seq::<LookupView>::empty());
    let mut j: usize = 0;
    while j < lookups.len()
        invariant
            ls == lookups_view(lookups@),
            j <= lookups@.len(),
            certs@ == infos(store@.certs) + lookup_certs(ls.take(j as int)),
            crls_view(crls@) == store@.crls + lookup_crls(ls.take(j as int)),
        decreases lookups@.len() - j,
    {
        let l = &lookups[j];
        assert(ls[j as int] == l@);
        append_infos(&mut certs, l.certs());
        append_crls(&mut crls, l.crls());
        assert(ls.take(j + 1).drop_last() =~= ls.take(j as int));
        assert(ls.take(j + 1).last() == l@);
        assert(certs@ =~= infos(store@.certs) + lookup_certs(ls.take(j + 1)));
        assert(crls_view(crls@) =~= store@.crls + lookup_crls(ls.take(j + 1)));
        j = j + 1;
    }
    assert(ls.take(j as int) =~= ls);
    (certs, crls)
}

pub open spec fn opt_param_view(p: Option<&X509VerifyParam>) -> Option<ParamView> {
    match p {
        Some(q) => Some(q@),
        None => None,
    }
}

fn make_ctx(store: &X509Store, param: Option<&X509VerifyParam>, chain: &Vec<X509>, now: i64) -> (r: Ctx)
    ensures
        r.view() == context_of(store@, opt_param_view(param), certs_view(chain@), now),
{
    let p = match param {
        Some(q) => q.inherit(store.param()),
        None => store.param().duplicate(),
    };
    assert(p@ == effective_param(store@.param, opt_param_view(param)));
    let depth = p.depth();
    let limit: usize = if depth < 0 { DEFAULT_DEPTH } else { depth as usize };
    let time = if p.flag_bits() & X509VerifyFlags::USE_CHECK_TIME != 0 { p.get_time() } else { now };
    let mut untrusted: Vec<CertInfo> = Vec::new();
    append_infos(&mut untrusted, chain);
    assert(untrusted@ =~= infos(certs_view(chain@)));
    let (trusted, crls) = store_pools(store);
    Ctx {
        untrusted,
        trusted,
        crls,
        flags: p.flag_bits(),
        limit,
        time,
        host: p.host_name(),
        hostflags: p.hostflags().bits,
        ip: p.ip_addr(),
    }
}

/// A verification result code; zero is success.
#[derive(Clone, Copy, PartialEq, Eq, Structural, Debug)]
pub struct X509VerifyResult {
    pub code: i32,
}

impl X509VerifyResult {
    pub fn from_raw(code: i32) -> (r: X509VerifyResult)
        ensures
            r.code == code,
    {
        X509VerifyResult { code }
    }

    pub fn as_raw(&self) -> (r: i32)
        ensures
            r == self.code,
    {
        self.code
    }

    pub fn is_ok(&self) -> (r: bool)
        ensures
            r == (self.code == X509_V_OK),
    {
        self.code == X509_V_OK
    }
}

/// What a verification found: the result, the depth and certificate at
/// which it stopped, and the chain it built.
pub struct X509VerifyOutcome {
    pub error: X509VerifyResult,
    pub error_depth: usize,
    pub current_cert: Option<CertInfo>,
    pub chain: Vec<CertInfo>,
}

impl View for X509VerifyOutcome {
    type V = OutcomeView;

    open spec fn view(&self) -> OutcomeView {
        OutcomeView {
            code: self.error.code,
            depth: self.error_depth as int,
            current: self.current_cert,
            chain: self.chain@,
        }
    }
}

/// Verifies `cert` against `store`, with the call's parameters `param` over
/// the store's, the further certificates `chain` offered with it, and `now`
/// as the current time in seconds since the epoch.
pub fn verify_cert(
    store: &X509Store,
    param: Option<&X509VerifyParam>,
    cert: &X509,
    chain: &Vec<X509>,
    now: i64,
) -> (r: X509VerifyOutcome)
    ensures
        r@ == verify_outcome(context_of(store@, opt_param_view(param), certs_view(chain@), now), cert@),
{
    let mut ctx = make_ctx(store, param, chain, now);
    let ghost first_ctx = ctx.view();
    let (mut built, mut failed) = build_chain_exec(&ctx, cert.info);
    let flags = ctx.flags;
    if failed.is_some() && flags & X509VerifyFlags::NO_ALT_CHAINS == 0 && flags
        & X509VerifyFlags::TRUSTED_FIRST == 0 {
        ctx.flags = flags | X509VerifyFlags::TRUSTED_FIRST;
        assert(ctx.view() == alt_ctx(first_ctx));
        let (alt, alt_failed) = build_chain_exec(&ctx, cert.info);
        ctx.flags = flags;
        if alt_failed.is_none() {
            built = alt;
            failed = None;
        }
    }
    assert(ctx.view() == first_ctx);
    if let Some(code) = failed {
        let d = built.len() - 1;
        let cur = built[d];
        return X509VerifyOutcome {
            error: X509VerifyResult { code },
            error_depth: d,
            current_cert: Some(cur),
            chain: built,
        };
    }
    if let Some((code, i)) = chain_error_exec(&ctx, &built) {
        let cur = built[i];
        return X509VerifyOutcome {
            error: X509VerifyResult { code },
            error_depth: i,
            current_cert: Some(cur),
            chain: built,
        };
    }
    let post = match host_error_exec(&ctx, cert) {
        Some(code) => Some(code),
        None => ip_error_exec(&ctx, cert),
    };
    match post {
        Some(code) => X509VerifyOutcome {
            error: X509VerifyResult { code },
            error_depth: 0,
            current_cert: Some(cert.info),
            chain: built,
        },
        None => X509VerifyOutcome {
            error: X509VerifyResult { code: X509_V_OK },
            error_depth: 0,
            current_cert: None,
            chain: built,
        },
    }
}


/// Whether some attached lookup is a hashed directory.
pub open spec fn has_hash_dir(store: StoreView) -> bool {
    exists|k: int| 0 <= k < store.lookups.len() && (#[trigger] store.lookups[k]).kind == LookupKind::HashDir
}

/// What the hashed directories are to be searched for before `out` is
/// final: the issuer of the certificate that had none, or the CRL of the
/// certificate whose CRL was missing or out of date; `crl` tells which. A
/// request already tried is not made again.
pub open spec fn load_request(out: OutcomeView, store: StoreView, tried: Seq<(u32, bool)>) -> Option<(u32, bool)> {
    let req = match out.current {
        Some(c) => if out.code == X509_V_ERR_UNABLE_TO_GET_ISSUER_CERT || out.code
            == X509_V_ERR_UNABLE_TO_GET_ISSUER_CERT_LOCALLY {
            Some((c.issuer_hash, false))
        } else if out.code == X509_V_ERR_UNABLE_TO_GET_CRL || out.code == X509_V_ERR_CRL_HAS_EXPIRED {
            Some((c.issuer_hash, true))
        } else {
            None
        },
        None => None,
    };
    match req {
        Some(q) => if has_hash_dir(store) && !tried.contains(q) {
            Some(q)
        } else {
            None
        },
        None => None,
    }
}

fn has_hash_dir_exec(store: &X509Store) -> (r: bool)
    ensures
        r == has_hash_dir(store@),
{
    let lookups = store.lookups();
    let mut k: usize = 0;
    while k < lookups.len()
        invariant
            k <= lookups@.len(),
            lookups_view(lookups@) == store@.lookups,
            forall|j: int| 0 <= j < k ==> (#[trigger] store@.lookups[j]).kind != LookupKind::HashDir,
        decreases lookups@.len() - k,
    {
        assert(store@.lookups[k as int] == lookups@[k as int]@);
        if lookups[k].kind() == LookupKind::HashDir {
            return true;
        }
        k = k + 1;
    }
    false
}

fn tried_contains(tried: &Vec<(u32, bool)>, q: (u32, bool)) -> (r: bool)
    ensures
        r == tried@.contains(q),
{
    let mut t: usize = 0;
    while t < tried.len()
        invariant
            t <= tried@.len(),
            forall|j: int| 0 <= j < t ==> tried@[j] != q,
        decreases tried@.len() - t,
    {
        if tried[t].0 == q.0 && tried[t].1 == q.1 {
            assert(tried@[t as int] == q);
            return true;
        }
        t = t + 1;
    }
    false
}

/// One step of a verification that may load from hashed directories.
pub enum VerifyStep {
    /// The verification is over.
    Done(X509VerifyOutcome),
    /// Load the certificates (or with `crl`, the CRLs) of subject hash
    /// `hash` from the hashed directories into their lookups, then step again.
    Load { hash: u32, crl: bool },
}

/// Verifies as `verify_cert` does with what the lookups hold now, and asks
/// for a load where that could change the outcome and was not tried yet
/// (`tried` lists what was loaded already).
pub fn verify_step(
    store: &X509Store,
    param: Option<&X509VerifyParam>,
    cert: &X509,
    chain: &Vec<X509>,
    now: i64,
    tried: &Vec<(u32, bool)>,
) -> (r: VerifyStep)
    ensures
        ({
            let out = verify_outcome(context_of(store@, opt_param_view(param), certs_view(chain@), now), cert@);
            match load_request(out, store@, tried@) {
                Some(q) => r == VerifyStep::Load { hash: q.0, crl: q.1 },
                None => r is Done && r->Done_0@ == out,
            }
        }),
{
    let out = verify_cert(store, param, cert, chain, now);
    let code = out.error.code;
    let req: Option<(u32, bool)> = match out.current_cert {
        Some(c) => if code == X509_V_ERR_UNABLE_TO_GET_ISSUER_CERT || code
            == X509_V_ERR_UNABLE_TO_GET_ISSUER_CERT_LOCALLY {
            Some((c.issuer_hash, false))
        } else if code == X509_V_ERR_UNABLE_TO_GET_CRL || code == X509_V_ERR_CRL_HAS_EXPIRED {
            Some((c.issuer_hash, true))
        } else {
            None
        },
        None => None,
    };
    match req {
        None => VerifyStep::Done(out),
        Some(q) => {
            let dir = has_hash_dir_exec(store);
            let seen = tried_contains(tried, q);
            if dir && !seen {
                VerifyStep::Load { hash: q.0, crl: q.1 }
            } else {
                VerifyStep::Done(out)
            }
        },
    }
}

} // verus!
