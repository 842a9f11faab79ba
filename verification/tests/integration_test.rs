use gb2260::Division;
use gb2260::Source;

fn example_division() -> Division {
    Division {
        source: Source::GB,
        code: "330105".to_string(),
        name: "拱墅区".to_string(),
        revision: "200712".to_string(),
    }
}

#[test]
fn it_parses_code() {
    let division = Division {
        source: Source::GB,
        code: "110105".to_string(),
        name: "朝阳区".to_string(),
        revision: "2014".to_string(),
    };

    assert_eq!(("11", "01", "05"), division.parsed_code());
}

#[test]
fn it_inits_a_division() {
    assert_eq!("拱墅区", example_division().name);
}

#[test]
fn it_finds_a_divistion() {
    let division = gb2260::get(Source::GB, "200712", "330105".to_string()).unwrap();

    assert_eq!(division, example_division());
}

#[test]
fn it_returns_all_revisions_by_source() {
    let gb_revisions = vec!["200712", "200212"];

    assert_eq!(gb_revisions, gb2260::revisions(Source::GB));
}

#[test]
fn it_has_prefecture_and_province() {
    let division = example_division();

    let prefecture_division = division.prefecture().unwrap();
    let province_division = division.province().unwrap();

    assert_eq!(prefecture_division.code, "330100".to_string());
    assert_eq!(province_division.code, "330000".to_string());
}

#[test]
fn it_has_prefectures() {
    let division = Division {
        source: Source::GB,
        code: "110000".to_string(),
        name: "北京市".to_string(),
        revision: "200712".to_string(),
    };

    assert!(division.prefectures().unwrap().iter().any(|d| d.code.as_str() == "110100"));
}

#[test]
fn it_has_counties() {
    let division = Division {
        source: Source::GB,
        code: "110100".to_string(),
        name: "市辖区".to_string(),
        revision: "200712".to_string(),
    };

    assert!(division.counties().unwrap().iter().any(|d| d.code.as_str() == "110101"));
}

#[test]
fn it_list_all_provinces() {
    let vec = gb2260::provinces(Source::GB, "200712").unwrap();

    assert!(vec.iter().any(|d| d.code.as_str() == "110000"));
}

#[test]
fn it_list_all_prefectures() {
    let vec = gb2260::prefectures(Source::GB, "200712").unwrap();

    assert!(vec.iter().any(|d| d.code.as_str() == "110100"));
}
