use gb2260::Division;
use gb2260::LookupError;
use gb2260::Source;
use gb2260::{get, is_county, is_prefecture, is_province, prefectures, provinces, revisions};

fn division(source: Source, code: &str, name: &str, revision: &str) -> Division {
    Division {
        source,
        code: code.to_string(),
        name: name.to_string(),
        revision: revision.to_string(),
    }
}

fn codes(divisions: &[Division]) -> Vec<&str> {
    divisions.iter().map(|d| d.code.as_str()).collect()
}

#[test]
fn classification_is_exclusive_and_exhaustive() {
    for code in ["110000", "110100", "110101", "330000", "330100", "330105", "", "00", "0000"] {
        let province = is_province(code);
        let prefecture = is_prefecture(code);
        let county = is_county(code);
        let trues = [province, prefecture, county].iter().filter(|b| **b).count();
        assert_eq!(1, trues, "code {:?}", code);
    }
}

#[test]
fn classification_by_trailing_zeros() {
    assert!(is_province("110000"));
    assert!(!is_province("110100"));
    assert!(!is_province("110101"));
    assert!(is_prefecture("110100"));
    assert!(!is_prefecture("110000"));
    assert!(!is_prefecture("110101"));
    assert!(is_county("110101"));
    assert!(!is_county("110000"));
    assert!(!is_county("110100"));
}

#[test]
fn division_level_predicates_delegate() {
    let d = division(Source::GB, "330105", "拱墅区", "200712");
    assert!(!d.is_province());
    assert!(!d.is_prefecture());
    assert!(d.is_county());
}

#[test]
fn get_names_the_division() {
    let d = get(Source::GB, "200712", "330105".to_string()).unwrap();
    assert_eq!("拱墅区", d.name);
    assert_eq!("330105", d.code);
    assert_eq!("200712", d.revision);
}

#[test]
fn get_unknown_revision_is_an_error() {
    let r = get(Source::GB, "1999", "110000".to_string());
    assert_eq!(Err(LookupError::UnknownRevision), r);
}

#[test]
fn get_unknown_code_is_an_error() {
    let r = get(Source::GB, "200712", "999999".to_string());
    assert_eq!(Err(LookupError::UnknownCode), r);
}

#[test]
fn listing_unknown_revision_is_an_error() {
    assert_eq!(Err(LookupError::UnknownRevision), provinces(Source::GB, "1999"));
    assert_eq!(Err(LookupError::UnknownRevision), prefectures(Source::Stats, "200712"));
}

#[test]
fn provinces_in_table_order() {
    let vec = provinces(Source::GB, "200712").unwrap();
    assert_eq!(vec!["110000", "330000"], codes(&vec));
}

#[test]
fn prefectures_in_table_order() {
    let vec = prefectures(Source::GB, "200712").unwrap();
    assert_eq!(vec!["110100", "330100", "330200"], codes(&vec));
}

#[test]
fn prefectures_of_a_province_share_its_prefix() {
    let d = get(Source::GB, "200712", "330000".to_string()).unwrap();
    let vec = d.prefectures().unwrap();
    assert_eq!(vec!["330100", "330200"], codes(&vec));
}

#[test]
fn counties_include_the_prefecture_itself() {
    let d = get(Source::GB, "200712", "330100".to_string()).unwrap();
    let vec = d.counties().unwrap();
    assert_eq!(vec!["330100", "330102", "330105"], codes(&vec));
}

#[test]
fn non_province_has_no_prefectures() {
    assert!(division(Source::GB, "330105", "拱墅区", "200712").prefectures().is_none());
    assert!(division(Source::GB, "330100", "杭州市", "200712").prefectures().is_none());
}

#[test]
fn non_prefecture_has_no_counties() {
    assert!(division(Source::GB, "330105", "拱墅区", "200712").counties().is_none());
    assert!(division(Source::GB, "330000", "浙江省", "200712").counties().is_none());
}

#[test]
fn province_of_a_province_is_itself() {
    let d = get(Source::GB, "200712", "330000".to_string()).unwrap();
    let p = d.province().unwrap();
    assert_eq!(d, p);
}

#[test]
fn round_trip_through_get() {
    let d = get(Source::GB, "200712", "330105".to_string()).unwrap();
    let again = get(d.source, &d.revision, d.code.clone()).unwrap();
    assert_eq!(d, again);
}

#[test]
fn equality_ignores_the_source() {
    let a = division(Source::GB, "110000", "北京市", "2014");
    let b = division(Source::Stats, "110000", "北京市", "2014");
    assert_eq!(a, b);
}

#[test]
fn equality_compares_code_name_and_revision() {
    let a = division(Source::GB, "110000", "北京市", "200712");
    assert_ne!(a, division(Source::GB, "110100", "北京市", "200712"));
    assert_ne!(a, division(Source::GB, "110000", "市辖区", "200712"));
    assert_ne!(a, division(Source::GB, "110000", "北京市", "200212"));
}

#[test]
fn stats_source_has_its_own_store() {
    assert_eq!(vec!["2014"], revisions(Source::Stats));
    let d = get(Source::Stats, "2014", "110105".to_string()).unwrap();
    assert_eq!("朝阳区", d.name);
}

#[test]
fn older_revision_is_reachable() {
    let d = get(Source::GB, "200212", "330105".to_string()).unwrap();
    assert_eq!("拱墅区", d.name);
    assert_eq!("200212", d.revision);
}

#[test]
fn data_lists_every_revision_table() {
    let tables = gb2260::data(Source::GB);
    assert_eq!(2, tables.len());
    assert_eq!("200712", tables[0].key);
    assert_eq!(9, tables[0].entries.len());
    assert_eq!("110000", tables[0].entries[0].code);
    assert_eq!("北京市", tables[0].entries[0].name);
}
