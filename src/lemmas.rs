//! Facts about verification across calls and parameter changes.

use vstd::prelude::*;

use crate::context::{
    alt_chains_allowed, alt_ctx, build_chain, build_from, cert_error, chain_for, chain_error_from, context_of, crl_error, find_issuer,
    host_error, ip_error, is_crl_error, time_error, verify_outcome, ChainBuild, OutcomeView,
    VerifyCtx, X509VerifyOutcome, X509_V_ERR_CERT_CHAIN_TOO_LONG, X509_V_ERR_CERT_NOT_YET_VALID,
    X509_V_ERR_UNABLE_TO_GET_ISSUER_CERT_LOCALLY, X509_V_OK,
};
use crate::cms::{
    cms_verify_result, has_option, result_view, signer_cert, signer_valid, CMSOptions, CmsView, SignerView,
};
use crate::error::{ErrorReason, ErrorStack};
use crate::store::{objects_of, StoreView, X509ObjectView};
use crate::verify::{default_param, has_flag, ParamView, X509VerifyFlags};
use crate::x509::{self_signed, CertInfo, X509View};

verus! {

/// Two outcomes that `verify_cert` returned for the same store, parameters,
/// certificate, offered chain and time are the same: the result code, the
/// depth, the certificate it stopped at and the chain.
pub proof fn lemma_verify_deterministic(
    store: StoreView,
    param: Option<ParamView>,
    chain: Seq<X509View>,
    leaf: X509View,
    now: i64,
    first: X509VerifyOutcome,
    second: X509VerifyOutcome,
)
    requires
        first@ == verify_outcome(context_of(store, param, chain, now), leaf),
        second@ == verify_outcome(context_of(store, param, chain, now), leaf),
    ensures
        first.error == second.error,
        first.error_depth == second.error_depth,
        first.current_cert == second.current_cert,
        first.chain@ == second.chain@,
{
}

/// Two results that CMS `verify` returned for the same message, signer
/// list, store, options and time are the same.
pub proof fn lemma_cms_verify_deterministic(
    msg: CmsView,
    signers: Option<Seq<X509View>>,
    store: StoreView,
    flags: u32,
    now: i64,
    first: Result<bool, ErrorStack>,
    second: Result<bool, ErrorStack>,
)
    requires
        result_view(first) == cms_verify_result(msg, signers, store, flags, now),
        result_view(second) == cms_verify_result(msg, signers, store, flags, now),
    ensures
        first == second,
{
    match first {
        Ok(_) => {},
        Err(e1) => {
            let e2 = second->Err_0;
            assert(e1.reason == e2.reason);
        },
    }
}

/// A built chain starts with the chain it was built from.
proof fn lemma_build_extends(ctx: VerifyCtx, chain: Seq<CertInfo>)
    ensures
        match build_from(ctx, chain) {
            ChainBuild::Anchored(s) => s.len() >= chain.len() && s.subrange(0, chain.len() as int) == chain,
            ChainBuild::Failed(code, s) => code != X509_V_OK && s.len() >= chain.len() && s.subrange(
                0,
                chain.len() as int,
            ) == chain,
        },
    decreases ctx.limit + 1 - chain.len(),
{
    let c = chain.last();
    let anchored = ctx.trusted.contains(c);
    assert(chain.subrange(0, chain.len() as int) =~= chain);
    if self_signed(c) {
    } else if has_flag(ctx.flags, X509VerifyFlags::PARTIAL_CHAIN) && anchored {
    } else if chain.len() > ctx.limit {
    } else {
        match find_issuer(ctx, c) {
            None => {},
            Some(issuer) => {
                let next = chain.push(issuer);
                lemma_build_extends(ctx, next);
                match build_from(ctx, next) {
                    ChainBuild::Anchored(s) => {
                        assert(s.subrange(0, chain.len() as int) =~= next.subrange(0, chain.len() as int));
                    },
                    ChainBuild::Failed(_, s) => {
                        assert(s.subrange(0, chain.len() as int) =~= next.subrange(0, chain.len() as int));
                    },
                }
            },
        }
    }
}

/// The first failing check found from `i` on, or none failing from `i` on.
proof fn lemma_chain_error_shape(ctx: VerifyCtx, chain: Seq<CertInfo>, i: int)
    requires
        0 <= i,
    ensures
        match chain_error_from(ctx, chain, i) {
            Some((code, k)) => i <= k < chain.len() && cert_error(ctx, chain, k) == Some(code),
            None => forall|j: int| i <= j < chain.len() ==> (#[trigger] cert_error(ctx, chain, j)) is None,
        },
    decreases chain.len() - i,
{
    if i < chain.len() {
        lemma_chain_error_shape(ctx, chain, i + 1);
    }
}

proof fn lemma_cert_error_nonzero(ctx: VerifyCtx, chain: Seq<CertInfo>, i: int)
    ensures
        cert_error(ctx, chain, i) != Some(X509_V_OK),
{
}

/// Two contexts that differ only in the depth limit, `low` under `high`.
pub open spec fn differ_in_limit(low: VerifyCtx, high: VerifyCtx) -> bool {
    &&& low.limit <= high.limit
    &&& low == VerifyCtx { limit: low.limit, ..high }
}

proof fn lemma_build_limit(low: VerifyCtx, high: VerifyCtx, chain: Seq<CertInfo>)
    requires
        differ_in_limit(low, high),
        1 <= chain.len() <= low.limit + 1,
    ensures
        build_from(low, chain) is Anchored ==> build_from(low, chain)->Anchored_0.len() <= low.limit + 1
            && build_from(high, chain) == build_from(low, chain),
        build_from(high, chain) is Anchored ==> {
            let s = build_from(high, chain)->Anchored_0;
            &&& s.len() <= low.limit + 1 ==> build_from(low, chain) == build_from(high, chain)
            &&& s.len() > low.limit + 1 ==> build_from(low, chain) is Failed
                && build_from(low, chain)->Failed_0 == X509_V_ERR_CERT_CHAIN_TOO_LONG
        },
    decreases high.limit + 1 - chain.len(),
{
    let c = chain.last();
    let anchored = high.trusted.contains(c);
    assert(find_issuer(low, c) == find_issuer(high, c));
    if self_signed(c) {
    } else if has_flag(high.flags, X509VerifyFlags::PARTIAL_CHAIN) && anchored {
    } else if chain.len() > high.limit {
    } else {
        match find_issuer(high, c) {
            None => {},
            Some(issuer) => {
                let next = chain.push(issuer);
                lemma_build_extends(high, next);
                if chain.len() > low.limit {
                } else {
                    lemma_build_limit(low, high, next);
                }
            },
        }
    }
}

proof fn lemma_checks_ignore_limit(low: VerifyCtx, high: VerifyCtx, chain: Seq<CertInfo>, i: int)
    requires
        differ_in_limit(low, high),
    ensures
        chain_error_from(low, chain, i) == chain_error_from(high, chain, i),
    decreases chain.len() - i,
{
    if 0 <= i < chain.len() {
        assert(cert_error(low, chain, i) == cert_error(high, chain, i));
        lemma_checks_ignore_limit(low, high, chain, i + 1);
    }
}

/// With a maximum depth of `d`, no verification succeeds with more than `d`
/// certificates below the trust anchor. Where a larger maximum `e` lets a
/// chain with `d` or fewer succeed, the maximum `d` gives the very same
/// outcome. Where `e` lets a chain with more than `d` succeed and no
/// alternative chain is searched for (`NO_ALT_CHAINS`), the maximum `d`
/// fails with `X509_V_ERR_CERT_CHAIN_TOO_LONG`.
pub proof fn lemma_depth_boundary(
    store: StoreView,
    param: ParamView,
    chain: Seq<X509View>,
    leaf: X509View,
    now: i64,
    d: isize,
    e: isize,
)
    requires
        0 <= d <= e,
    ensures
        ({
            let low = verify_outcome(
                context_of(store, Some(ParamView { depth: d, ..param }), chain, now),
                leaf,
            );
            let high = verify_outcome(
                context_of(store, Some(ParamView { depth: e, ..param }), chain, now),
                leaf,
            );
            &&& low.code == X509_V_OK ==> low.chain.len() - 1 <= d
            &&& high.code == X509_V_OK && high.chain.len() - 1 <= d ==> low == high
            &&& has_flag(param.flags, X509VerifyFlags::NO_ALT_CHAINS) && high.code == X509_V_OK
                && high.chain.len() - 1 > d ==> low.code == X509_V_ERR_CERT_CHAIN_TOO_LONG
        }),
{
    let lc = context_of(store, Some(ParamView { depth: d, ..param }), chain, now);
    let hc = context_of(store, Some(ParamView { depth: e, ..param }), chain, now);
    let f = store.param.flags;
    let g = param.flags;
    assert(g & 0x100000u64 != 0 ==> (f | g) & 0x100000u64 != 0) by (bit_vector);
    lemma_outcome_limits(lc, hc, leaf);
}

/// The depth boundary over two contexts that differ in their limit alone.
proof fn lemma_outcome_limits(lc: VerifyCtx, hc: VerifyCtx, leaf: X509View)
    requires
        differ_in_limit(lc, hc),
    ensures
        ({
            let low = verify_outcome(lc, leaf);
            let high = verify_outcome(hc, leaf);
            &&& low.code == X509_V_OK ==> low.chain.len() <= lc.limit + 1
            &&& high.code == X509_V_OK && high.chain.len() <= lc.limit + 1 ==> low == high
            &&& has_flag(lc.flags, X509VerifyFlags::NO_ALT_CHAINS) && high.code == X509_V_OK
                && high.chain.len() > lc.limit + 1 ==> low.code == X509_V_ERR_CERT_CHAIN_TOO_LONG
        }),
{
    assert(differ_in_limit(alt_ctx(lc), alt_ctx(hc)));
    let first = seq![leaf.info];
    lemma_build_limit(lc, hc, first);
    lemma_build_limit(alt_ctx(lc), alt_ctx(hc), first);
    lemma_build_extends(lc, first);
    lemma_build_extends(hc, first);
    lemma_build_extends(alt_ctx(lc), first);
    lemma_build_extends(alt_ctx(hc), first);
    assert(lc.flags == hc.flags);
    if chain_for(hc, leaf.info) is Anchored && chain_for(hc, leaf.info)->Anchored_0.len() <= lc.limit + 1 {
        assert(chain_for(lc, leaf.info) == chain_for(hc, leaf.info));
    }
    match chain_for(hc, leaf.info) {
        ChainBuild::Anchored(s) => {
            lemma_checks_ignore_limit(lc, hc, s, 0);
        },
        ChainBuild::Failed(_, _) => {},
    }
    match chain_for(lc, leaf.info) {
        ChainBuild::Anchored(s) => {
            lemma_checks_ignore_limit(lc, hc, s, 0);
            lemma_chain_error_shape(lc, s, 0);
            if let Some((code, k)) = chain_error_from(lc, s, 0) {
                lemma_cert_error_nonzero(lc, s, k);
            }
        },
        ChainBuild::Failed(_, _) => {},
    }
}

proof fn lemma_crl_flag_apart(s: u64, p: u64, g: u64)
    ensures
        (s | 4u64) | p == (s | p) | 4u64,
        ((g | 4u64) & 0x2u64 != 0) == (g & 0x2u64 != 0),
        ((g | 4u64) & 0x8u64 != 0) == (g & 0x8u64 != 0),
        ((g | 4u64) & 0x8000u64 != 0) == (g & 0x8000u64 != 0),
        ((g | 4u64) & 0x80000u64 != 0) == (g & 0x80000u64 != 0),
        ((g | 4u64) & 0x200000u64 != 0) == (g & 0x200000u64 != 0),
        ((g | 4u64) & 0x100000u64 != 0) == (g & 0x100000u64 != 0),
{
    assert((s | 4u64) | p == (s | p) | 4u64) by (bit_vector);
    assert(((g | 4u64) & 0x2u64 != 0) == (g & 0x2u64 != 0)) by (bit_vector);
    assert(((g | 4u64) & 0x8u64 != 0) == (g & 0x8u64 != 0)) by (bit_vector);
    assert(((g | 4u64) & 0x8000u64 != 0) == (g & 0x8000u64 != 0)) by (bit_vector);
    assert(((g | 4u64) & 0x80000u64 != 0) == (g & 0x80000u64 != 0)) by (bit_vector);
    assert(((g | 4u64) & 0x200000u64 != 0) == (g & 0x200000u64 != 0)) by (bit_vector);
    assert(((g | 4u64) & 0x100000u64 != 0) == (g & 0x100000u64 != 0)) by (bit_vector);
}

/// Two contexts that differ only in flags that chain building and the
/// checks other than revocation do not read.
pub open spec fn differ_in_crl_flags(a: VerifyCtx, b: VerifyCtx) -> bool {
    &&& a == VerifyCtx { flags: a.flags, ..b }
    &&& has_flag(a.flags, X509VerifyFlags::TRUSTED_FIRST) == has_flag(b.flags, X509VerifyFlags::TRUSTED_FIRST)
    &&& has_flag(a.flags, X509VerifyFlags::PARTIAL_CHAIN) == has_flag(b.flags, X509VerifyFlags::PARTIAL_CHAIN)
    &&& has_flag(a.flags, X509VerifyFlags::NO_CHECK_TIME) == has_flag(b.flags, X509VerifyFlags::NO_CHECK_TIME)
    &&& has_flag(a.flags, X509VerifyFlags::NO_ALT_CHAINS) == has_flag(b.flags, X509VerifyFlags::NO_ALT_CHAINS)
}

proof fn lemma_or_keeps_bit(a: u64, b: u64, t: u64, x: u64)
    requires
        (a & x != 0) == (b & x != 0),
    ensures
        ((a | t) & x != 0) == ((b | t) & x != 0),
{
    assert((a & x != 0) == (b & x != 0) ==> ((a | t) & x != 0) == ((b | t) & x != 0)) by (bit_vector);
}

/// Chain selection, alternatives included, reads no flag that
/// `differ_in_crl_flags` lets differ.
proof fn lemma_chain_for_ignores_crl_flags(a: VerifyCtx, b: VerifyCtx, leaf: CertInfo)
    requires
        differ_in_crl_flags(a, b),
    ensures
        chain_for(a, leaf) == chain_for(b, leaf),
{
    lemma_build_ignores_crl_flags(a, b, seq![leaf]);
    let t = X509VerifyFlags::TRUSTED_FIRST;
    lemma_or_keeps_bit(a.flags, b.flags, t, X509VerifyFlags::PARTIAL_CHAIN);
    lemma_or_keeps_bit(a.flags, b.flags, t, X509VerifyFlags::NO_CHECK_TIME);
    lemma_or_keeps_bit(a.flags, b.flags, t, X509VerifyFlags::NO_ALT_CHAINS);
    lemma_or_keeps_bit(a.flags, b.flags, t, X509VerifyFlags::TRUSTED_FIRST);
    assert(differ_in_crl_flags(alt_ctx(a), alt_ctx(b)));
    lemma_build_ignores_crl_flags(alt_ctx(a), alt_ctx(b), seq![leaf]);
}

proof fn lemma_build_ignores_crl_flags(a: VerifyCtx, b: VerifyCtx, chain: Seq<CertInfo>)
    requires
        differ_in_crl_flags(a, b),
    ensures
        build_from(a, chain) == build_from(b, chain),
    decreases a.limit + 1 - chain.len(),
{
    let c = chain.last();
    assert(find_issuer(a, c) == find_issuer(b, c));
    if !self_signed(c) && !(has_flag(a.flags, X509VerifyFlags::PARTIAL_CHAIN) && a.trusted.contains(c))
        && chain.len() <= a.limit {
        if let Some(issuer) = find_issuer(a, c) {
            lemma_build_ignores_crl_flags(a, b, chain.push(issuer));
        }
    }
}

/// A revocation check fails only with a revocation error.
proof fn lemma_crl_error_kind(ctx: VerifyCtx, chain: Seq<CertInfo>, i: int)
    ensures
        crl_error(ctx, chain, i) is Some ==> is_crl_error(crl_error(ctx, chain, i)->0),
{
}

/// Turning `CRL_CHECK` on in a store's parameters makes no verification that
/// succeeded fail, except with a revocation error.
pub proof fn lemma_crl_check_adds_only_revocation_errors(
    store: StoreView,
    param: Option<ParamView>,
    chain: Seq<X509View>,
    leaf: X509View,
    now: i64,
)
    requires
        verify_outcome(context_of(store, param, chain, now), leaf).code == X509_V_OK,
    ensures
        ({
            let checked = StoreView {
                param: ParamView {
                    flags: store.param.flags | X509VerifyFlags::CRL_CHECK,
                    ..store.param
                },
                ..store
            };
            let r = verify_outcome(context_of(checked, param, chain, now), leaf);
            r.code == X509_V_OK || is_crl_error(r.code)
        }),
{
    let checked = StoreView {
        param: ParamView {
            flags: store.param.flags | X509VerifyFlags::CRL_CHECK,
            ..store.param
        },
        ..store
    };
    let c1 = context_of(store, param, chain, now);
    let c2 = context_of(checked, param, chain, now);
    let pflags: u64 = match param {
        Some(p) => p.flags,
        None => 0,
    };
    let g: u64 = match param {
        Some(p) => store.param.flags | p.flags,
        None => store.param.flags,
    };
    lemma_crl_flag_apart(store.param.flags, pflags, g);
    assert(c1.flags == g);
    assert(c2.flags == g | 4u64);
    assert(differ_in_crl_flags(c2, c1));
    lemma_chain_for_ignores_crl_flags(c2, c1, leaf.info);
    lemma_build_extends(c1, seq![leaf.info]);
    lemma_build_extends(alt_ctx(c1), seq![leaf.info]);
    match chain_for(c1, leaf.info) {
        ChainBuild::Anchored(s) => {
            lemma_chain_error_shape(c1, s, 0);
            if let Some((code, k)) = chain_error_from(c1, s, 0) {
                lemma_cert_error_nonzero(c1, s, k);
            }
            lemma_chain_error_shape(c2, s, 0);
            if let Some((code, k)) = chain_error_from(c2, s, 0) {
                assert(cert_error(c1, s, k) is None);
                assert(time_error(c2, s[k]) == time_error(c1, s[k]));
                lemma_crl_error_kind(c2, s, k);
            }
            assert(host_error(c2, leaf) == host_error(c1, leaf));
            assert(ip_error(c2, leaf) == ip_error(c1, leaf));
        },
        ChainBuild::Failed(_, _) => {},
    }
}


/// The store that `b` becomes when the certificates `certs` are added to it
/// one by one, as `add_cert` adds each.
pub open spec fn with_certs_added(b: StoreView, certs: Seq<X509View>) -> StoreView
    decreases certs.len(),
{
    if certs.len() == 0 {
        b
    } else {
        let prev = with_certs_added(b, certs.drop_last());
        StoreView { certs: prev.certs.push(certs.last()), ..prev }
    }
}

proof fn lemma_certs_added(b: StoreView, certs: Seq<X509View>)
    ensures
        with_certs_added(b, certs) == (StoreView { certs: b.certs + certs, ..b }),
    decreases certs.len(),
{
    if certs.len() == 0 {
        assert(b.certs + certs =~= b.certs);
    } else {
        lemma_certs_added(b, certs.drop_last());
        assert(b.certs + certs.drop_last() + seq![certs.last()] =~= b.certs + certs);
        assert((b.certs + certs.drop_last()).push(certs.last()) =~= b.certs + certs);
    }
}

/// A store built from an empty builder to which only certificates were
/// added lists exactly those certificates, in the order they were added.
pub proof fn lemma_objects_round_trip(b: StoreView, certs: Seq<X509View>)
    requires
        b.certs.len() == 0,
        b.crls.len() == 0,
    ensures
        objects_of(with_certs_added(b, certs)) == certs.map_values(|c: X509View| X509ObjectView::Cert(c)),
{
    lemma_certs_added(b, certs);
    assert(b.certs + certs =~= certs);
    assert(objects_of(with_certs_added(b, certs)) =~= certs.map_values(
        |c: X509View| X509ObjectView::Cert(c),
    ));
}


/// A store with no certificates, CRLs or lookups and default parameters
/// fails every certificate not issued by itself, offered alone, with
/// `X509_V_ERR_UNABLE_TO_GET_ISSUER_CERT_LOCALLY` at depth 0.
pub proof fn lemma_empty_store_fails_locally(leaf: X509View, now: i64)
    requires
        !self_signed(leaf.info),
    ensures
        ({
            let store = StoreView {
                certs: Seq::empty(),
                crls: Seq::empty(),
                lookups: Seq::empty(),
                param: default_param(),
            };
            let r = verify_outcome(context_of(store, None, Seq::empty(), now), leaf);
            r.code == X509_V_ERR_UNABLE_TO_GET_ISSUER_CERT_LOCALLY && r.depth == 0 && r.current
                == Some(leaf.info)
        }),
{
    let store = StoreView {
        certs: Seq::empty(),
        crls: Seq::empty(),
        lookups: Seq::empty(),
        param: default_param(),
    };
    let ctx = context_of(store, None, Seq::empty(), now);
    assert(ctx.trusted =~= Seq::<CertInfo>::empty());
    assert(ctx.untrusted =~= Seq::<CertInfo>::empty());
    assert(!ctx.trusted.contains(leaf.info));
    assert(ctx.limit == 100);
    assert(seq![leaf.info].last() == leaf.info);
    assert(!has_flag(0u64, X509VerifyFlags::PARTIAL_CHAIN)) by (bit_vector);
}

/// A store holding one certificate issued by itself, with default
/// parameters, accepts that certificate, whatever certificates are offered
/// with it, while the current time is within its validity window, and builds
/// the chain of it alone.
pub proof fn lemma_single_anchor_verifies(c: X509View, chain: Seq<X509View>, now: i64)
    requires
        self_signed(c.info),
        c.info.not_before <= now <= c.info.not_after,
    ensures
        ({
            let store = StoreView {
                certs: seq![c],
                crls: Seq::empty(),
                lookups: Seq::empty(),
                param: default_param(),
            };
            let r = verify_outcome(context_of(store, None, chain, now), c);
            r.code == X509_V_OK && r.chain == seq![c.info]
        }),
{
    let store = StoreView {
        certs: seq![c],
        crls: Seq::empty(),
        lookups: Seq::empty(),
        param: default_param(),
    };
    let ctx = context_of(store, None, chain, now);
    assert(ctx.trusted =~= seq![c.info]);
    assert(ctx.trusted[0] == c.info);
    assert(seq![c.info].last() == c.info);
    assert(!has_flag(0u64, X509VerifyFlags::NO_CHECK_TIME)) by (bit_vector);
    assert(!has_flag(0u64, X509VerifyFlags::USE_CHECK_TIME)) by (bit_vector);
    assert(!has_flag(0u64, X509VerifyFlags::CRL_CHECK_ALL)) by (bit_vector);
    assert(!has_flag(0u64, X509VerifyFlags::CRL_CHECK)) by (bit_vector);
    let ch = seq![c.info];
    assert(cert_error(ctx, ch, 0) is None);
    assert(chain_error_from(ctx, ch, 1) is None);
}

/// A message signed with the key of a certificate issued by itself, which
/// the message carries as its signer's certificate, verifies against a store
/// holding that certificate alone, with default parameters, while the
/// current time is within its validity window.
pub proof fn lemma_cms_single_anchor_verifies(c: X509View, content: Seq<u8>, flags: u32, now: i64)
    requires
        self_signed(c.info),
        c.info.not_before <= now <= c.info.not_after,
    ensures
        ({
            let store = StoreView {
                certs: seq![c],
                crls: Seq::empty(),
                lookups: Seq::empty(),
                param: default_param(),
            };
            let msg = CmsView {
                content: Some(content),
                certs: seq![c],
                crls: Seq::empty(),
                signers: seq![
                    SignerView {
                        sid_issuer_hash: c.info.issuer_hash,
                        sid_serial: c.info.serial,
                        signer_key_id: c.info.key_id,
                        signed_content: content,
                        signer: Some(c),
                    },
                ],
            };
            cms_verify_result(msg, None, store, flags, now) == Ok::<bool, ErrorReason>(true)
        }),
{
    lemma_single_anchor_verifies(c, seq![c], now);
}

/// A message whose signature carries no certificate, verified without a
/// signer list under `NOINTERN`, is not accepted: the result is `Ok(false)`
/// where the message has content.
pub proof fn lemma_cms_unknown_signer_rejected(
    msg: CmsView,
    store: StoreView,
    flags: u32,
    now: i64,
    i: int,
)
    requires
        0 <= i < msg.signers.len(),
        msg.content is Some,
        msg.signers[i].signer is None,
        has_option(flags, CMSOptions::NOINTERN),
    ensures
        cms_verify_result(msg, None, store, flags, now) == Ok::<bool, ErrorReason>(false),
{
    assert(!signer_valid(msg.signers[i], None, msg, store, flags, now));
}

/// With a verification time set before the leaf's `not_before`, and time
/// checks on, a leaf whose chain can be built fails with
/// `X509_V_ERR_CERT_NOT_YET_VALID` at depth 0.
pub proof fn lemma_time_before_not_before(
    store: StoreView,
    param: ParamView,
    chain: Seq<X509View>,
    leaf: X509View,
    now: i64,
)
    requires
        has_flag(param.flags, X509VerifyFlags::USE_CHECK_TIME),
        param.time < leaf.info.not_before,
        !has_flag(store.param.flags | param.flags, X509VerifyFlags::NO_CHECK_TIME),
        build_chain(context_of(store, Some(param), chain, now), leaf.info) is Anchored,
    ensures
        ({
            let r = verify_outcome(context_of(store, Some(param), chain, now), leaf);
            r.code == X509_V_ERR_CERT_NOT_YET_VALID && r.depth == 0
        }),
{
    let ctx = context_of(store, Some(param), chain, now);
    let f = store.param.flags;
    let g = param.flags;
    assert(g & 2u64 != 0 ==> (f | g) & 2u64 != 0) by (bit_vector);
    lemma_build_extends(ctx, seq![leaf.info]);
    let ch = build_chain(ctx, leaf.info)->Anchored_0;
    assert(ch.subrange(0, 1)[0] == ch[0]);
    assert(ch[0] == leaf.info);
}


/// The store as it is with its maximum depth set to `depth`.
pub open spec fn with_depth(store: StoreView, depth: isize) -> StoreView {
    StoreView { param: ParamView { depth, ..store.param }, ..store }
}

/// With `NO_ALT_CHAINS` and a maximum depth of `d` in the store's
/// parameters, a signature is not accepted where its certificate's chain,
/// under a larger maximum `e`, verifies with more than `d` certificates
/// below the anchor; and where that chain has `d` or fewer, the maximum `d`
/// decides the signature as `e` does.
pub proof fn lemma_cms_depth_boundary(
    msg: CmsView,
    signers: Option<Seq<X509View>>,
    store: StoreView,
    flags: u32,
    now: i64,
    i: int,
    cert: X509View,
    d: isize,
    e: isize,
)
    requires
        0 <= d <= e,
        0 <= i < msg.signers.len(),
        msg.content is Some,
        signer_cert(msg.signers[i], signers, msg, flags) == Some(cert),
        !has_option(flags, CMSOptions::NO_SIGNER_CERT_VERIFY),
    ensures
        ({
            let high = verify_outcome(context_of(with_depth(store, e), None, msg.certs, now), cert);
            &&& has_flag(store.param.flags, X509VerifyFlags::NO_ALT_CHAINS) && high.code == X509_V_OK
                && high.chain.len() - 1 > d ==> cms_verify_result(
                msg,
                signers,
                with_depth(store, d),
                flags,
                now,
            ) == Ok::<bool, ErrorReason>(false)
            &&& high.code == X509_V_OK && high.chain.len() - 1 <= d ==> verify_outcome(
                context_of(with_depth(store, d), None, msg.certs, now),
                cert,
            ) == high
        }),
{
    let lc = context_of(with_depth(store, d), None, msg.certs, now);
    let hc = context_of(with_depth(store, e), None, msg.certs, now);
    assert(differ_in_limit(lc, hc));
    lemma_outcome_limits(lc, hc, cert);
}

/// With the store's verification time set before the signer certificate's
/// `not_before` and time checks on, a signature whose certificate's chain
/// can be built is not accepted, unless `NO_SIGNER_CERT_VERIFY`.
pub proof fn lemma_cms_signer_not_yet_valid(
    msg: CmsView,
    signers: Option<Seq<X509View>>,
    store: StoreView,
    flags: u32,
    now: i64,
    i: int,
    cert: X509View,
)
    requires
        0 <= i < msg.signers.len(),
        msg.content is Some,
        signer_cert(msg.signers[i], signers, msg, flags) == Some(cert),
        !has_option(flags, CMSOptions::NO_SIGNER_CERT_VERIFY),
        has_flag(store.param.flags, X509VerifyFlags::USE_CHECK_TIME),
        store.param.time < cert.info.not_before,
        !has_flag(store.param.flags, X509VerifyFlags::NO_CHECK_TIME),
        chain_for(context_of(store, None, msg.certs, now), cert.info) is Anchored,
    ensures
        verify_outcome(context_of(store, None, msg.certs, now), cert).code
            == X509_V_ERR_CERT_NOT_YET_VALID,
        cms_verify_result(msg, signers, store, flags, now) == Ok::<bool, ErrorReason>(false),
{
    let ctx = context_of(store, None, msg.certs, now);
    let first = seq![cert.info];
    lemma_build_extends(ctx, first);
    lemma_build_extends(alt_ctx(ctx), first);
    let s = chain_for(ctx, cert.info)->Anchored_0;
    assert(s.subrange(0, 1)[0] == s[0]);
    assert(s[0] == cert.info);
    assert(time_error(ctx, s[0]) == Some(X509_V_ERR_CERT_NOT_YET_VALID));
    assert(cert_error(ctx, s, 0) == Some(X509_V_ERR_CERT_NOT_YET_VALID));
    assert(chain_error_from(ctx, s, 0) == Some((X509_V_ERR_CERT_NOT_YET_VALID, 0int)));
    assert(!signer_valid(msg.signers[i], signers, msg, store, flags, now));
}

} // verus!
