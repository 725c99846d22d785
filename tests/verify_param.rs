use x509_trust::error::ErrorReason;
use x509_trust::verify::{X509CheckFlags, X509VerifyFlags, X509VerifyParam};

#[test]
fn get_set_verify_time() {
    let mut param = X509VerifyParam::new().unwrap();
    assert_eq!(0, param.get_time());

    let verify_time: i64 = 1950902108;
    param.set_time(verify_time);

    assert_eq!(verify_time, param.get_time());
}

#[test]
fn get_set_verify_depth() {
    let mut param = X509VerifyParam::new().unwrap();
    assert_eq!(-1, param.get_depth());

    let depth = 2;
    param.set_depth(depth);
    assert_eq!(depth, param.get_depth());
}

#[test]
fn new_param_has_no_flags() {
    let mut param = X509VerifyParam::new().unwrap();
    assert_eq!(param.flags().bits(), 0);
    assert!(param.host_name().is_none());
    assert!(param.ip_addr().is_none());
}

#[test]
fn set_time_turns_on_use_check_time() {
    let mut param = X509VerifyParam::new().unwrap();
    param.set_time(42);
    assert_eq!(param.flags().bits(), X509VerifyFlags::USE_CHECK_TIME);
}

#[test]
fn set_and_clear_flags() {
    let mut param = X509VerifyParam::new().unwrap();
    let flags = X509VerifyFlags::from_bits(X509VerifyFlags::CRL_CHECK)
        .union(X509VerifyFlags::from_bits(X509VerifyFlags::PARTIAL_CHAIN));
    assert!(param.set_flags(flags).is_ok());
    assert_eq!(param.flags().bits(), 0x80004);
    assert!(param.clear_flags(X509VerifyFlags::from_bits(X509VerifyFlags::CRL_CHECK)).is_ok());
    assert_eq!(param.flags().bits(), 0x80000);
}

#[test]
fn set_flags_is_plain_or_and_clear_undoes_it() {
    let mut param = X509VerifyParam::new().unwrap();
    param.set_flags(X509VerifyFlags::from_bits(X509VerifyFlags::EXPLICIT_POLICY)).unwrap();
    assert_eq!(param.flags().bits(), X509VerifyFlags::EXPLICIT_POLICY);
    param.clear_flags(X509VerifyFlags::from_bits(X509VerifyFlags::EXPLICIT_POLICY)).unwrap();
    assert_eq!(param.flags().bits(), 0);
}

#[test]
fn flags_difference_and_contains() {
    let f = X509VerifyFlags::from_bits(0x6);
    assert_eq!(f.difference(X509VerifyFlags::from_bits(0x2)).bits(), 0x4);
    assert!(f.contains(X509VerifyFlags::from_bits(0x4)));
    assert!(!f.contains(X509VerifyFlags::from_bits(0x8)));
    assert_eq!(X509VerifyFlags::empty().bits(), 0);
}

#[test]
fn set_host_keeps_name() {
    let mut param = X509VerifyParam::new().unwrap();
    param.set_host("example.com").unwrap();
    assert_eq!(param.host_name(), Some(b"example.com".to_vec()));
}

#[test]
fn set_host_refuses_trailing_nul() {
    let mut param = X509VerifyParam::new().unwrap();
    assert_eq!(param.set_host("example.com\0").unwrap_err().reason, ErrorReason::InvalidHostName);
    assert_eq!(param.set_host("\0").unwrap_err().reason, ErrorReason::InvalidHostName);
    assert!(param.host_name().is_none());
}

#[test]
fn set_host_refuses_inner_nul() {
    let mut param = X509VerifyParam::new().unwrap();
    param.set_host("good.example").unwrap();
    let r = param.set_host("bad\0host");
    assert_eq!(r.unwrap_err().reason, ErrorReason::InvalidHostName);
    assert_eq!(param.host_name(), Some(b"good.example".to_vec()));
}

#[test]
fn set_host_empty_clears() {
    let mut param = X509VerifyParam::new().unwrap();
    param.set_host("example.com").unwrap();
    param.set_host("").unwrap();
    assert!(param.host_name().is_none());
}

#[test]
fn set_ip_four_and_sixteen_bytes() {
    let mut param = X509VerifyParam::new().unwrap();
    param.set_ip(&[127, 0, 0, 1]).unwrap();
    assert_eq!(param.ip_addr(), Some(vec![127, 0, 0, 1]));
    let v6 = [0u8, 0, 0, 0, 0, 0, 0, 0, 0, 0, 0, 0, 0, 0, 0, 1];
    param.set_ip(&v6).unwrap();
    assert_eq!(param.ip_addr(), Some(v6.to_vec()));
}

#[test]
fn set_ip_refuses_other_lengths() {
    let mut param = X509VerifyParam::new().unwrap();
    let r = param.set_ip(&[1, 2, 3]);
    assert_eq!(r.unwrap_err().reason, ErrorReason::InvalidIpLength);
    assert!(param.ip_addr().is_none());
}

#[test]
fn hostflags_round_trip() {
    let mut param = X509VerifyParam::new().unwrap();
    let flags = X509CheckFlags::from_bits(X509CheckFlags::NO_WILDCARDS)
        .union(X509CheckFlags::from_bits(X509CheckFlags::NEVER_CHECK_SUBJECT));
    param.set_hostflags(flags);
    assert_eq!(param.hostflags().bits(), 0x22);
    assert!(param.hostflags().contains(X509CheckFlags::from_bits(X509CheckFlags::NO_WILDCARDS)));
}

#[test]
fn inherit_prefers_call_values() {
    let mut defaults = X509VerifyParam::new().unwrap();
    defaults.set_depth(5);
    defaults.set_host("store.example").unwrap();
    defaults.set_flags(X509VerifyFlags::from_bits(X509VerifyFlags::CRL_CHECK)).unwrap();
    let mut call = X509VerifyParam::new().unwrap();
    call.set_flags(X509VerifyFlags::from_bits(X509VerifyFlags::PARTIAL_CHAIN)).unwrap();
    let mut merged = call.inherit(&defaults);
    assert_eq!(merged.get_depth(), 5);
    assert_eq!(merged.host_name(), Some(b"store.example".to_vec()));
    assert_eq!(merged.flags().bits(), 0x80004);
    call.set_depth(1);
    let mut merged = call.inherit(&defaults);
    assert_eq!(merged.get_depth(), 1);
}
