use x509_trust::context::{
    verify_cert, verify_step, VerifyStep, X509VerifyOutcome, X509_V_ERR_CERT_CHAIN_TOO_LONG, X509_V_ERR_CERT_HAS_EXPIRED,
    X509_V_ERR_CERT_NOT_YET_VALID, X509_V_ERR_CERT_REVOKED, X509_V_ERR_CERT_SIGNATURE_FAILURE,
    X509_V_ERR_CRL_HAS_EXPIRED, X509_V_ERR_CRL_NOT_YET_VALID, X509_V_ERR_CRL_SIGNATURE_FAILURE,
    X509_V_ERR_DEPTH_ZERO_SELF_SIGNED_CERT, X509_V_ERR_HOSTNAME_MISMATCH, X509_V_ERR_INVALID_CA,
    X509_V_ERR_IP_ADDRESS_MISMATCH, X509_V_ERR_PATH_LENGTH_EXCEEDED,
    X509_V_ERR_SELF_SIGNED_CERT_IN_CHAIN, X509_V_ERR_UNABLE_TO_GET_CRL,
    X509_V_ERR_UNABLE_TO_GET_ISSUER_CERT, X509_V_ERR_UNABLE_TO_GET_ISSUER_CERT_LOCALLY, X509_V_OK,
};
use x509_trust::store::{X509Lookup, X509Store, X509StoreBuilder};
use x509_trust::verify::{X509CheckFlags, X509VerifyFlags, X509VerifyParam};
use x509_trust::x509::{CertInfo, X509Crl, X509};

const NOW: i64 = 1_000_000_000;

fn cert(serial: u64, subject: u32, issuer: u32, key: u64, signer: u64, is_ca: bool) -> X509 {
    X509::new(CertInfo {
        serial,
        subject_hash: subject,
        issuer_hash: issuer,
        key_id: key,
        signer_key_id: signer,
        not_before: 0,
        not_after: 2_000_000_000,
        is_ca,
        path_len: -1,
    })
}

fn root() -> X509 {
    cert(1, 100, 100, 1000, 1000, true)
}

fn inter() -> X509 {
    cert(2, 200, 100, 2000, 1000, true)
}

fn leaf() -> X509 {
    cert(3, 300, 200, 3000, 2000, false)
}

fn store_with(certs: &[&X509]) -> X509Store {
    let mut b = X509StoreBuilder::new().unwrap();
    for c in certs {
        b.add_cert(c).unwrap();
    }
    b.build()
}

fn run(store: &X509Store, param: Option<&X509VerifyParam>, c: &X509, chain: &[&X509]) -> X509VerifyOutcome {
    let chain: Vec<X509> = chain.iter().map(|c| c.duplicate()).collect();
    verify_cert(store, param, c, &chain, NOW)
}

#[test]
fn full_chain_verifies() {
    let (r, i, l) = (root(), inter(), leaf());
    let store = store_with(&[&r]);
    let out = run(&store, None, &l, &[&i]);
    assert_eq!(out.error.as_raw(), X509_V_OK);
    assert!(out.error.is_ok());
    assert_eq!(out.chain, vec![l.info, i.info, r.info]);
    assert!(out.current_cert.is_none());
}

#[test]
fn self_signed_in_store_verifies_alone() {
    let c = root();
    let store = store_with(&[&c]);
    let out = run(&store, None, &c, &[]);
    assert_eq!(out.error.as_raw(), X509_V_OK);
    assert_eq!(out.chain, vec![c.info]);
}

#[test]
fn empty_store_fails_locally_at_depth_zero() {
    let store = store_with(&[]);
    let l = leaf();
    let out = run(&store, None, &l, &[]);
    assert_eq!(out.error.as_raw(), X509_V_ERR_UNABLE_TO_GET_ISSUER_CERT_LOCALLY);
    assert_eq!(out.error_depth, 0);
    assert_eq!(out.current_cert, Some(l.info));
}

#[test]
fn time_before_not_before_is_not_yet_valid() {
    let r = root();
    let mut l = leaf();
    l.info.not_before = 500_000;
    let store = store_with(&[&r]);
    let mut param = X509VerifyParam::new().unwrap();
    param.set_time(100_000);
    let out = run(&store, Some(&param), &l, &[&inter()]);
    assert_eq!(out.error.as_raw(), X509_V_ERR_CERT_NOT_YET_VALID);
    assert_eq!(out.error_depth, 0);
}

#[test]
fn time_after_not_after_is_expired() {
    let r = root();
    let store = store_with(&[&r]);
    let mut param = X509VerifyParam::new().unwrap();
    param.set_time(3_000_000_000);
    let out = run(&store, Some(&param), &leaf(), &[&inter()]);
    assert_eq!(out.error.as_raw(), X509_V_ERR_CERT_HAS_EXPIRED);
}

#[test]
fn no_check_time_skips_validity() {
    let r = root();
    let store = store_with(&[&r]);
    let mut param = X509VerifyParam::new().unwrap();
    param.set_time(3_000_000_000);
    param.set_flags(X509VerifyFlags::from_bits(X509VerifyFlags::NO_CHECK_TIME)).unwrap();
    let out = run(&store, Some(&param), &leaf(), &[&inter()]);
    assert_eq!(out.error.as_raw(), X509_V_OK);
}

#[test]
fn depth_limit_boundary() {
    let r = root();
    let store = store_with(&[&r]);
    for (depth, expected) in [(0, X509_V_ERR_CERT_CHAIN_TOO_LONG), (1, X509_V_ERR_CERT_CHAIN_TOO_LONG), (2, X509_V_OK), (3, X509_V_OK)] {
        let mut param = X509VerifyParam::new().unwrap();
        param.set_depth(depth);
        let out = run(&store, Some(&param), &leaf(), &[&inter()]);
        assert_eq!(out.error.as_raw(), expected, "depth {}", depth);
    }
}

#[test]
fn depth_zero_allows_trusted_self_signed_leaf() {
    let r = root();
    let store = store_with(&[&r]);
    let mut param = X509VerifyParam::new().unwrap();
    param.set_depth(0);
    let out = run(&store, Some(&param), &r, &[]);
    assert_eq!(out.error.as_raw(), X509_V_OK);
}

#[test]
fn untrusted_self_signed_leaf() {
    let store = store_with(&[]);
    let out = run(&store, None, &root(), &[]);
    assert_eq!(out.error.as_raw(), X509_V_ERR_DEPTH_ZERO_SELF_SIGNED_CERT);
    assert_eq!(out.error_depth, 0);
}

#[test]
fn untrusted_self_signed_in_chain() {
    let store = store_with(&[]);
    let out = run(&store, None, &leaf(), &[&inter(), &root()]);
    assert_eq!(out.error.as_raw(), X509_V_ERR_SELF_SIGNED_CERT_IN_CHAIN);
    assert_eq!(out.error_depth, 2);
}

#[test]
fn trusted_intermediate_without_root() {
    let i = inter();
    let store = store_with(&[&i]);
    let out = run(&store, None, &leaf(), &[]);
    assert_eq!(out.error.as_raw(), X509_V_ERR_UNABLE_TO_GET_ISSUER_CERT);
    assert_eq!(out.error_depth, 1);
    assert_eq!(out.current_cert, Some(i.info));
}

#[test]
fn partial_chain_accepts_trusted_intermediate() {
    let i = inter();
    let store = store_with(&[&i]);
    let mut param = X509VerifyParam::new().unwrap();
    param.set_flags(X509VerifyFlags::from_bits(X509VerifyFlags::PARTIAL_CHAIN)).unwrap();
    let out = run(&store, Some(&param), &leaf(), &[]);
    assert_eq!(out.error.as_raw(), X509_V_OK);
    assert_eq!(out.chain.len(), 2);
}

#[test]
fn wrong_issuer_key_is_signature_failure() {
    let r = root();
    let store = store_with(&[&r]);
    let bad = cert(2, 200, 100, 9999, 1000, true);
    let out = run(&store, None, &leaf(), &[&bad]);
    assert_eq!(out.error.as_raw(), X509_V_ERR_CERT_SIGNATURE_FAILURE);
    assert_eq!(out.error_depth, 0);
}

#[test]
fn non_ca_issuer_is_invalid_ca() {
    let r = root();
    let store = store_with(&[&r]);
    let not_ca = cert(2, 200, 100, 2000, 1000, false);
    let out = run(&store, None, &leaf(), &[&not_ca]);
    assert_eq!(out.error.as_raw(), X509_V_ERR_INVALID_CA);
    assert_eq!(out.error_depth, 1);
}

#[test]
fn path_length_exceeded() {
    let mut r = root();
    r.info.path_len = 0;
    let store = store_with(&[&r]);
    let out = run(&store, None, &leaf(), &[&inter()]);
    assert_eq!(out.error.as_raw(), X509_V_ERR_PATH_LENGTH_EXCEEDED);
    assert_eq!(out.error_depth, 2);
}

fn crl_store(crl: Option<&X509Crl>, flags: u64) -> X509Store {
    let mut b = X509StoreBuilder::new().unwrap();
    b.add_cert(&root()).unwrap();
    if let Some(c) = crl {
        b.add_crl(c).unwrap();
    }
    b.set_flags(X509VerifyFlags::from_bits(flags)).unwrap();
    b.build()
}

#[test]
fn crl_check_without_crl() {
    let store = crl_store(None, X509VerifyFlags::CRL_CHECK);
    let out = run(&store, None, &leaf(), &[&inter()]);
    assert_eq!(out.error.as_raw(), X509_V_ERR_UNABLE_TO_GET_CRL);
    assert_eq!(out.error_depth, 0);
}

#[test]
fn crl_check_passes_with_clean_crl() {
    let crl = X509Crl::new(200, 2000, 0, Some(2_000_000_000));
    let without = crl_store(Some(&crl), 0);
    assert_eq!(run(&without, None, &leaf(), &[&inter()]).error.as_raw(), X509_V_OK);
    let with = crl_store(Some(&crl), X509VerifyFlags::CRL_CHECK);
    assert_eq!(run(&with, None, &leaf(), &[&inter()]).error.as_raw(), X509_V_OK);
}

#[test]
fn crl_revokes_leaf() {
    let mut crl = X509Crl::new(200, 2000, 0, None);
    crl.add_revoked(3);
    assert!(crl.is_revoked(3));
    assert!(!crl.is_revoked(4));
    let store = crl_store(Some(&crl), X509VerifyFlags::CRL_CHECK);
    let out = run(&store, None, &leaf(), &[&inter()]);
    assert_eq!(out.error.as_raw(), X509_V_ERR_CERT_REVOKED);
}

#[test]
fn crl_signed_by_other_key() {
    let crl = X509Crl::new(200, 7777, 0, None);
    let store = crl_store(Some(&crl), X509VerifyFlags::CRL_CHECK);
    let out = run(&store, None, &leaf(), &[&inter()]);
    assert_eq!(out.error.as_raw(), X509_V_ERR_CRL_SIGNATURE_FAILURE);
}

#[test]
fn crl_not_yet_valid_and_expired() {
    let early = X509Crl::new(200, 2000, NOW + 10, None);
    let store = crl_store(Some(&early), X509VerifyFlags::CRL_CHECK);
    assert_eq!(run(&store, None, &leaf(), &[&inter()]).error.as_raw(), X509_V_ERR_CRL_NOT_YET_VALID);
    let stale = X509Crl::new(200, 2000, 0, Some(NOW - 10));
    let store = crl_store(Some(&stale), X509VerifyFlags::CRL_CHECK);
    assert_eq!(run(&store, None, &leaf(), &[&inter()]).error.as_raw(), X509_V_ERR_CRL_HAS_EXPIRED);
}

#[test]
fn crl_check_all_reaches_intermediate() {
    let crl = X509Crl::new(200, 2000, 0, None);
    let store = crl_store(Some(&crl), X509VerifyFlags::CRL_CHECK_ALL);
    let out = run(&store, None, &leaf(), &[&inter()]);
    assert_eq!(out.error.as_raw(), X509_V_ERR_UNABLE_TO_GET_CRL);
    assert_eq!(out.error_depth, 1);
}

fn host_leaf(names: &[&str]) -> X509 {
    let mut l = leaf();
    for n in names {
        l.add_dns_name(n);
    }
    l
}

fn host_outcome(host: &str, names: &[&str], hostflags: u32) -> i32 {
    let store = store_with(&[&root()]);
    let mut param = X509VerifyParam::new().unwrap();
    param.set_host(host).unwrap();
    param.set_hostflags(X509CheckFlags::from_bits(hostflags));
    run(&store, Some(&param), &host_leaf(names), &[&inter()]).error.as_raw()
}

#[test]
fn host_exact_and_case_insensitive() {
    assert_eq!(host_outcome("www.example.com", &["www.example.com"], 0), X509_V_OK);
    assert_eq!(host_outcome("WWW.Example.COM", &["other.test", "www.example.com"], 0), X509_V_OK);
}

#[test]
fn host_wildcard() {
    assert_eq!(host_outcome("www.example.com", &["*.example.com"], 0), X509_V_OK);
    assert_eq!(host_outcome("a.b.example.com", &["*.example.com"], 0), X509_V_ERR_HOSTNAME_MISMATCH);
    assert_eq!(host_outcome("example.com", &["*.com"], 0), X509_V_ERR_HOSTNAME_MISMATCH);
    assert_eq!(
        host_outcome("www.example.com", &["*.example.com"], X509CheckFlags::NO_WILDCARDS),
        X509_V_ERR_HOSTNAME_MISMATCH
    );
}

#[test]
fn host_mismatch_reported_at_leaf() {
    let store = store_with(&[&root()]);
    let mut param = X509VerifyParam::new().unwrap();
    param.set_host("example.org").unwrap();
    let l = host_leaf(&["example.com"]);
    let out = run(&store, Some(&param), &l, &[&inter()]);
    assert_eq!(out.error.as_raw(), X509_V_ERR_HOSTNAME_MISMATCH);
    assert_eq!(out.error_depth, 0);
    assert_eq!(out.current_cert, Some(l.info));
}

#[test]
fn ip_match_and_mismatch() {
    let store = store_with(&[&root()]);
    let mut l = leaf();
    l.add_ip_addr(&[10, 0, 0, 1]);
    let mut param = X509VerifyParam::new().unwrap();
    param.set_ip(&[10, 0, 0, 1]).unwrap();
    assert_eq!(run(&store, Some(&param), &l, &[&inter()]).error.as_raw(), X509_V_OK);
    param.set_ip(&[10, 0, 0, 2]).unwrap();
    assert_eq!(run(&store, Some(&param), &l, &[&inter()]).error.as_raw(), X509_V_ERR_IP_ADDRESS_MISMATCH);
}

#[test]
fn lookup_cache_supplies_anchor() {
    let mut b = X509StoreBuilder::new().unwrap();
    {
        let lookup = b.add_lookup(X509Lookup::hash_dir()).unwrap();
        lookup.add_dir("/etc/ssl/certs", x509_trust::store::SslFiletype::Pem).unwrap();
        lookup.add_loaded_cert(&root());
    }
    let store = b.build();
    let out = run(&store, None, &leaf(), &[&inter()]);
    assert_eq!(out.error.as_raw(), X509_V_OK);
    assert_eq!(out.chain.len(), 3);
}

#[test]
fn offered_chain_searched_before_store() {
    let r = root();
    let store_inter = cert(20, 200, 100, 2000, 1000, true);
    let offered_inter = inter();
    let store = store_with(&[&r, &store_inter]);
    let out = run(&store, None, &leaf(), &[&offered_inter]);
    assert_eq!(out.chain[1], offered_inter.info);
    let mut param = X509VerifyParam::new().unwrap();
    param.set_flags(X509VerifyFlags::from_bits(X509VerifyFlags::TRUSTED_FIRST)).unwrap();
    let out = run(&store, Some(&param), &leaf(), &[&offered_inter]);
    assert_eq!(out.chain[1], store_inter.info);
}

#[test]
fn verifying_twice_gives_same_outcome() {
    let store = store_with(&[&root()]);
    let a = run(&store, None, &leaf(), &[&inter()]);
    let b = run(&store, None, &leaf(), &[&inter()]);
    assert_eq!(a.error, b.error);
    assert_eq!(a.error_depth, b.error_depth);
    assert_eq!(a.chain, b.chain);
    let empty = store_with(&[]);
    let c = run(&empty, None, &leaf(), &[]);
    let d = run(&empty, None, &leaf(), &[]);
    assert_eq!(c.error, d.error);
    assert_eq!(c.current_cert, d.current_cert);
}

#[test]
fn default_paths_anchor_loaded_from_directory() {
    let mut b = X509StoreBuilder::new().unwrap();
    b.set_default_paths("/usr/lib/ssl/cert.pem", "/usr/lib/ssl/certs").unwrap();
    assert!(b.lookup_mut(2).is_none());
    b.lookup_mut(1).unwrap().add_loaded_cert(&root());
    let store = b.build();
    let out = run(&store, None, &leaf(), &[&inter()]);
    assert_eq!(out.error.as_raw(), X509_V_OK);
    assert_eq!(out.chain, vec![leaf().info, inter().info, root().info]);
}

#[test]
fn host_multi_label_wildcard() {
    assert_eq!(host_outcome("a.b.example.com", &["*.example.com"], X509CheckFlags::MULTI_LABEL_WILDCARDS), X509_V_OK);
    assert_eq!(host_outcome("example.com", &["*.example.com"], X509CheckFlags::MULTI_LABEL_WILDCARDS), X509_V_ERR_HOSTNAME_MISMATCH);
}

#[test]
fn host_partial_wildcard_never_matches() {
    assert_eq!(host_outcome("www.example.com", &["w*.example.com"], 0), X509_V_ERR_HOSTNAME_MISMATCH);
    assert_eq!(
        host_outcome("www.example.com", &["w*.example.com"], X509CheckFlags::NO_PARTIAL_WILDCARDS),
        X509_V_ERR_HOSTNAME_MISMATCH
    );
}

#[test]
fn host_parent_domain() {
    assert_eq!(host_outcome(".example.com", &["www.example.com"], 0), X509_V_OK);
    assert_eq!(host_outcome(".example.com", &["a.b.example.com"], 0), X509_V_OK);
    assert_eq!(
        host_outcome(".example.com", &["a.b.example.com"], X509CheckFlags::SINGLE_LABEL_SUBDOMAINS),
        X509_V_ERR_HOSTNAME_MISMATCH
    );
    assert_eq!(
        host_outcome(".example.com", &["www.example.com"], X509CheckFlags::SINGLE_LABEL_SUBDOMAINS),
        X509_V_OK
    );
    assert_eq!(host_outcome(".example.com", &["example.com"], 0), X509_V_ERR_HOSTNAME_MISMATCH);
}

#[test]
fn issuer_with_signing_key_preferred() {
    let r = root();
    let store = store_with(&[&r]);
    let other_key = cert(7, 200, 100, 9999, 1000, true);
    let out = run(&store, None, &leaf(), &[&other_key, &inter()]);
    assert_eq!(out.error.as_raw(), X509_V_OK);
    assert_eq!(out.chain[1], inter().info);
}

#[test]
fn alternative_chain_through_trusted_intermediate() {
    let r = root();
    let trusted_inter = inter();
    let store = store_with(&[&r, &trusted_inter]);
    let cross = cert(8, 200, 900, 2000, 9000, true);
    let out = run(&store, None, &leaf(), &[&cross]);
    assert_eq!(out.error.as_raw(), X509_V_OK);
    assert_eq!(out.chain, vec![leaf().info, trusted_inter.info, r.info]);

    let mut param = X509VerifyParam::new().unwrap();
    param.set_flags(X509VerifyFlags::from_bits(X509VerifyFlags::NO_ALT_CHAINS)).unwrap();
    let out = run(&store, Some(&param), &leaf(), &[&cross]);
    assert_eq!(out.error.as_raw(), X509_V_ERR_UNABLE_TO_GET_ISSUER_CERT_LOCALLY);
    assert_eq!(out.error_depth, 1);
    assert_eq!(out.current_cert, Some(cross.info));
}

#[test]
fn verify_step_asks_for_missing_issuers() {
    let mut b = X509StoreBuilder::new().unwrap();
    b.add_lookup(X509Lookup::hash_dir()).unwrap().add_dir("/certs", x509_trust::store::SslFiletype::Pem).unwrap();
    let mut store = b.build();
    let mut tried: Vec<(u32, bool)> = Vec::new();
    let l = leaf();
    let step = verify_step(&store, None, &l, &Vec::new(), NOW, &tried);
    assert!(matches!(step, VerifyStep::Load { hash: 200, crl: false }));
    tried.push((200, false));
    let step = verify_step(&store, None, &l, &Vec::new(), NOW, &tried);
    assert!(matches!(step, VerifyStep::Done(ref o) if o.error.as_raw() == X509_V_ERR_UNABLE_TO_GET_ISSUER_CERT_LOCALLY));
    store.lookup_mut(0).unwrap().add_loaded_cert(&inter());
    let step = verify_step(&store, None, &l, &Vec::new(), NOW, &tried);
    assert!(matches!(step, VerifyStep::Load { hash: 100, crl: false }));
    tried.push((100, false));
    store.lookup_mut(0).unwrap().add_loaded_cert(&root());
    match verify_step(&store, None, &l, &Vec::new(), NOW, &tried) {
        VerifyStep::Done(o) => {
            assert_eq!(o.error.as_raw(), X509_V_OK);
            assert_eq!(o.chain.len(), 3);
        }
        _ => panic!("expected a finished verification"),
    }
}

#[test]
fn verify_step_without_directory_is_done() {
    let store = store_with(&[]);
    let step = verify_step(&store, None, &leaf(), &Vec::new(), NOW, &Vec::new());
    assert!(matches!(step, VerifyStep::Done(ref o) if o.error.as_raw() == X509_V_ERR_UNABLE_TO_GET_ISSUER_CERT_LOCALLY));
}
