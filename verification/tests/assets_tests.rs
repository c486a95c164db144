use projects_api::assets::{asset_basename, asset_source_key, base_prefix, bucket_name, plan_copies, target_key};
use projects_api::ids::{id_text, parse_id_text};
use projects_api::store::ProjectError;

#[test]
fn id_text_is_canonical_hyphenated_hex() {
    assert_eq!(id_text(0), "00000000-0000-0000-0000-000000000000");
    assert_eq!(
        id_text(0x00112233_4455_6677_8899_aabbccddeeff),
        "00112233-4455-6677-8899-aabbccddeeff"
    );
    assert_eq!(id_text(u128::MAX), "ffffffff-ffff-ffff-ffff-ffffffffffff");
    assert_eq!(id_text(1), "00000000-0000-0000-0000-000000000001");
}

#[test]
fn parse_id_text_inverts_the_canonical_form() {
    assert_eq!(parse_id_text("00000000-0000-0000-0000-000000000000"), Ok(0));
    assert_eq!(
        parse_id_text("00112233-4455-6677-8899-aabbccddeeff"),
        Ok(0x00112233_4455_6677_8899_aabbccddeeff)
    );
    assert_eq!(parse_id_text(&id_text(987654321)), Ok(987654321));
    assert_eq!(parse_id_text(&id_text(u128::MAX)), Ok(u128::MAX));
}

#[test]
fn parse_id_text_rejects_malformed_identifiers() {
    // Too short, bad hyphen placement, non-hex digit, wrong letter case.
    assert_eq!(parse_id_text(""), Err(ProjectError::Validation));
    assert_eq!(parse_id_text("0011223344556677"), Err(ProjectError::Validation));
    assert_eq!(
        parse_id_text("001122334455-6677-8899-aabbccddeeff-"),
        Err(ProjectError::Validation)
    );
    assert_eq!(
        parse_id_text("00112233-4455-6677-8899-aabbccddeefg"),
        Err(ProjectError::Validation)
    );
    assert_eq!(
        parse_id_text("00112233-4455-6677-8899-AABBCCDDEEFF"),
        Err(ProjectError::Validation)
    );
}

#[test]
fn source_key_is_the_suffix_after_the_base_prefix() {
    assert_eq!(
        asset_source_key("https://download.swissgeol.ch/foo/bar.png"),
        Some("foo/bar.png".to_string())
    );
    assert_eq!(asset_source_key("https://elsewhere.example/foo/bar.png"), None);
    assert_eq!(asset_source_key("bar.png"), None);
    // Rooted means starting with the prefix, not merely containing it.
    assert_eq!(
        asset_source_key("x-https://download.swissgeol.ch/foo/bar.png"),
        None
    );
    assert_eq!(
        asset_source_key("https://download.swissgeol.ch/"),
        Some("".to_string())
    );
}

#[test]
fn basename_is_the_final_path_segment() {
    assert_eq!(asset_basename("https://download.swissgeol.ch/foo/bar.png"), "bar.png");
    assert_eq!(asset_basename("a/b/c"), "c");
    assert_eq!(asset_basename("noslash"), "noslash");
    assert_eq!(asset_basename("trailing/"), "");
}

#[test]
fn target_key_namespaces_by_the_new_id() {
    assert_eq!(
        target_key(3, "https://download.swissgeol.ch/foo/bar.png"),
        "assets/00000000-0000-0000-0000-000000000003/bar.png"
    );
}

#[test]
fn plan_holds_one_copy_per_base_asset_in_order() {
    let assets = vec![
        "https://download.swissgeol.ch/p/q.bin".to_string(),
        "https://elsewhere.example/r.bin".to_string(),
        "https://download.swissgeol.ch/s.bin".to_string(),
    ];
    let jobs = plan_copies(&assets, 3);
    assert_eq!(jobs.len(), 2);
    assert_eq!(jobs[0].source_key, "p/q.bin");
    assert_eq!(jobs[0].target_key, "assets/00000000-0000-0000-0000-000000000003/q.bin");
    assert_eq!(jobs[1].source_key, "s.bin");
    assert_eq!(jobs[1].target_key, "assets/00000000-0000-0000-0000-000000000003/s.bin");
}

#[test]
fn distinct_ids_give_distinct_namespaces() {
    let href = "https://download.swissgeol.ch/foo/bar.png";
    assert_ne!(target_key(1, href), target_key(2, href));
    assert_ne!(
        target_key(1, "https://download.swissgeol.ch/a/same.png"),
        target_key(2, "https://download.swissgeol.ch/b/same.png")
    );
}

#[test]
fn constants_name_the_deployment() {
    assert_eq!(base_prefix(), "https://download.swissgeol.ch/");
    assert_eq!(bucket_name(), "ngmpub-download-bgdi-ch");
}
