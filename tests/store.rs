use x509_trust::error::ErrorReason;
use x509_trust::store::{hashed_entry_name, LookupKind, SslFiletype, X509Lookup, X509Object, X509StoreBuilder};
use x509_trust::verify::{X509VerifyFlags, X509VerifyParam};
use x509_trust::x509::{CertInfo, X509Crl, X509};

fn cert(serial: u64, subject: u32) -> X509 {
    X509::new(CertInfo {
        serial,
        subject_hash: subject,
        issuer_hash: subject,
        key_id: serial,
        signer_key_id: serial,
        not_before: 0,
        not_after: 10,
        is_ca: true,
        path_len: -1,
    })
}

#[test]
fn objects_list_added_certificates_in_order() {
    let (a, b) = (cert(1, 10), cert(2, 20));
    let mut builder = X509StoreBuilder::new().unwrap();
    builder.add_cert(&a).unwrap();
    builder.add_cert(&b).unwrap();
    let store = builder.build();
    let objs = store.objects();
    assert_eq!(objs.len(), 2);
    match (&objs[0], &objs[1]) {
        (X509Object::Cert(x), X509Object::Cert(y)) => {
            assert_eq!(x.info, a.info);
            assert_eq!(y.info, b.info);
        }
        _ => panic!("expected two certificates"),
    }
}

#[test]
fn objects_list_certificates_before_crls() {
    let mut builder = X509StoreBuilder::new().unwrap();
    builder.add_crl(&X509Crl::new(10, 1, 0, None)).unwrap();
    builder.add_cert(&cert(1, 10)).unwrap();
    let store = builder.build();
    let objs = store.objects();
    assert_eq!(objs.len(), 2);
    assert!(matches!(objs[0], X509Object::Cert(_)));
    match &objs[1] {
        X509Object::Crl(c) => assert_eq!(c.issuer_hash, 10),
        _ => panic!("expected a CRL"),
    }
}

#[test]
fn duplicate_certificates_are_kept() {
    let a = cert(1, 10);
    let mut builder = X509StoreBuilder::new().unwrap();
    builder.add_cert(&a).unwrap();
    builder.add_cert(&a).unwrap();
    assert_eq!(builder.build().certs().len(), 2);
}

#[test]
fn empty_store_has_no_objects() {
    let store = X509StoreBuilder::new().unwrap().build();
    assert!(store.objects().is_empty());
    assert!(store.lookups().is_empty());
}

#[test]
fn store_flags_go_to_store_param() {
    let mut builder = X509StoreBuilder::new().unwrap();
    builder.set_flags(X509VerifyFlags::from_bits(X509VerifyFlags::CRL_CHECK)).unwrap();
    let mut store = builder.build();
    assert_eq!(store.param().flag_bits(), X509VerifyFlags::CRL_CHECK);
    let mut param = X509VerifyParam::new().unwrap();
    param.set_depth(3);
    store.set_param(&param).unwrap();
    assert_eq!(store.param().depth(), 3);
    assert_eq!(store.param().flag_bits(), 0);
}

#[test]
fn each_add_lookup_attaches_a_new_lookup() {
    let mut builder = X509StoreBuilder::new().unwrap();
    builder.add_lookup(X509Lookup::hash_dir()).unwrap().add_dir("/a", SslFiletype::Pem).unwrap();
    builder.add_lookup(X509Lookup::hash_dir()).unwrap().add_dir("/b", SslFiletype::Asn1).unwrap();
    let store = builder.build();
    let lookups = store.lookups();
    assert_eq!(lookups.len(), 2);
    assert_eq!(lookups[0].kind(), LookupKind::HashDir);
    assert_eq!(lookups[0].locations()[0].path, b"/a".to_vec());
    assert_eq!(lookups[1].locations()[0].file_type, SslFiletype::Asn1);
    assert_eq!(SslFiletype::Asn1.as_raw(), 2);
}

#[test]
fn add_dir_refuses_empty_and_nul_names() {
    let mut builder = X509StoreBuilder::new().unwrap();
    let lookup = builder.add_lookup(X509Lookup::hash_dir()).unwrap();
    assert_eq!(lookup.add_dir("", SslFiletype::Pem).unwrap_err().reason, ErrorReason::InvalidDirectory);
    assert_eq!(lookup.add_dir("/etc\0/certs", SslFiletype::Pem).unwrap_err().reason, ErrorReason::InvalidDirectory);
    assert!(lookup.locations().is_empty());
}

#[test]
fn add_dir_appends_every_registration() {
    let mut builder = X509StoreBuilder::new().unwrap();
    let lookup = builder.add_lookup(X509Lookup::hash_dir()).unwrap();
    lookup.add_dir("/etc/certs", SslFiletype::Pem).unwrap();
    lookup.add_dir("/etc/certs", SslFiletype::Asn1).unwrap();
    lookup.add_dir("/opt/certs", SslFiletype::Pem).unwrap();
    assert_eq!(lookup.locations().len(), 3);
    assert_eq!(lookup.locations()[1].file_type, SslFiletype::Asn1);
    assert_eq!(lookup.locations()[2].path, b"/opt/certs".to_vec());
}

#[test]
fn loaded_crl_refreshes_only_when_newer() {
    let mut builder = X509StoreBuilder::new().unwrap();
    let lookup = builder.add_lookup(X509Lookup::hash_dir()).unwrap();
    lookup.add_loaded_crl(&X509Crl::new(10, 1, 100, None));
    lookup.add_loaded_crl(&X509Crl::new(20, 2, 100, None));
    lookup.add_loaded_crl(&X509Crl::new(10, 1, 50, None));
    assert_eq!(lookup.crls().len(), 2);
    assert_eq!(lookup.crls()[0].last_update, 100);
    let mut newer = X509Crl::new(10, 1, 200, None);
    newer.add_revoked(7);
    lookup.add_loaded_crl(&newer);
    assert_eq!(lookup.crls().len(), 2);
    assert_eq!(lookup.crls()[0].last_update, 200);
    assert!(lookup.crls()[0].is_revoked(7));
}

#[test]
fn loaded_certs_are_kept_in_order() {
    let mut builder = X509StoreBuilder::new().unwrap();
    let lookup = builder.add_lookup(X509Lookup::hash_dir()).unwrap();
    lookup.add_loaded_cert(&cert(1, 10));
    lookup.add_loaded_cert(&cert(2, 20));
    assert_eq!(lookup.certs()[1].info.serial, 2);
}

#[test]
fn default_paths_attach_file_and_directory() {
    let mut builder = X509StoreBuilder::new().unwrap();
    builder.set_default_paths("/usr/lib/ssl/cert.pem", "/usr/lib/ssl/certs").unwrap();
    let store = builder.build();
    let lookups = store.lookups();
    assert_eq!(lookups.len(), 2);
    assert_eq!(lookups[0].kind(), LookupKind::File);
    assert_eq!(lookups[0].locations()[0].path, b"/usr/lib/ssl/cert.pem".to_vec());
    assert_eq!(lookups[1].kind(), LookupKind::HashDir);
    assert_eq!(lookups[1].locations()[0].path, b"/usr/lib/ssl/certs".to_vec());
}

#[test]
fn default_paths_refuse_empty_location() {
    let mut builder = X509StoreBuilder::new().unwrap();
    let r = builder.set_default_paths("", "/usr/lib/ssl/certs");
    assert_eq!(r.unwrap_err().reason, ErrorReason::InvalidDirectory);
    assert!(builder.build().lookups().is_empty());
}

#[test]
fn duplicate_keeps_names() {
    let mut a = cert(1, 10);
    a.add_dns_name("example.com");
    a.add_ip_addr(&[1, 2, 3, 4]);
    let b = a.duplicate();
    assert_eq!(b.info, a.info);
    assert_eq!(b.dns_names, vec![b"example.com".to_vec()]);
    assert_eq!(b.ip_addrs, vec![vec![1, 2, 3, 4]]);
    assert!(a.info.is_self_signed());
}

#[test]
fn hashed_entry_names() {
    assert_eq!(hashed_entry_name(b"/etc/ssl/certs", 0x1a2b3c4d, 0, false), b"/etc/ssl/certs/1a2b3c4d.0".to_vec());
    assert_eq!(hashed_entry_name(b"/d", 0xff, 12, true), b"/d/000000ff.r12".to_vec());
}

#[test]
fn lookup_knows_loaded_subjects() {
    let mut builder = X509StoreBuilder::new().unwrap();
    let lookup = builder.add_lookup(X509Lookup::hash_dir()).unwrap();
    assert!(!lookup.has_subject(10));
    lookup.add_loaded_cert(&cert(1, 10));
    assert!(lookup.has_subject(10));
    assert!(!lookup.has_subject(20));
}
