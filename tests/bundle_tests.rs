use gitflow::bundle::{
    bundle_created_message, bundle_error, bundle_fetch_message, bundle_ref_info, bundle_ref_label,
    bundle_ref_labels, bundle_verify_result,
};

#[test]
fn ref_listing_lines_become_labels() {
    assert_eq!(
        bundle_ref_label("0123456789abcdef refs/heads/main"),
        "refs/heads/main (0123456)"
    );
    assert_eq!(bundle_ref_label("abc refs/tags/v1"), "refs/tags/v1 (abc)");
    assert_eq!(bundle_ref_label("nospace"), "nospace");
    let labels = bundle_ref_labels("1111111111 refs/heads/a\n\n2222222222 refs/tags/b\n");
    assert_eq!(labels, vec!["refs/heads/a (1111111)".to_string(), "refs/tags/b (2222222)".to_string()]);
    assert!(bundle_ref_labels("").is_empty());
}

#[test]
fn verify_results_report_the_outcome() {
    let ok = bundle_verify_result(true, vec!["a".to_string(), "b".to_string()], "", "");
    assert!(ok.valid);
    assert_eq!(ok.message, "번들이 유효합니다 (2개 ref 포함)");
    let bad = bundle_verify_result(false, vec![], "out\n", "  error: bad bundle\n");
    assert_eq!(bad.message, "번들 검증 실패: error: bad bundle");
    let bad2 = bundle_verify_result(false, vec![], " out \n", "");
    assert_eq!(bad2.message, "번들 검증 실패: out");
}

#[test]
fn fetch_and_create_messages() {
    assert_eq!(bundle_fetch_message("o", " From bundle\n"), "From bundle");
    assert_eq!(bundle_fetch_message(" o\n", ""), "o");
    assert_eq!(bundle_fetch_message("", ""), "번들에서 페치 완료");
    assert_eq!(bundle_error("번들 생성 실패: ", "fatal: x\n"), "번들 생성 실패: fatal: x");
    assert_eq!(bundle_created_message("/tmp/out/repo.bundle"), "번들 생성 완료: repo.bundle");
    assert_eq!(bundle_created_message("/"), "번들 생성 완료: ");
    let info = bundle_ref_info("main", "0123456789", false);
    assert_eq!((info.commit_sha.as_str(), info.ref_type.as_str()), ("0123456", "branch"));
    assert_eq!(bundle_ref_info("v1", "0123456789", true).ref_type, "tag");
}
