//! The registry's data: an immutable store per source, built on demand.
//!
//! The store is an association list so that the insertion order of both the
//! revision keys and the code entries is kept; lookups take the first match.
//! `data` returns a store whose content equals the spec-level `store`
//! exactly, so every query can be specified against that model.

use crate::codes::{prefecture_code_of, province_code_of};
use crate::model::{
    DivisionModel, LookupError, Source, Store, Table, division_model_eq, find_name, find_table,
    store_navigable, store_well_formed, table_codes_six_chars, table_codes_unique, table_navigable,
};
use vstd::prelude::*;

verus! {

/// One `(code, name)` row of a revision table.
#[derive(Debug, Clone)]
pub struct Entry {
    pub code: String,
    pub name: String,
}

/// One revision of a source's code table.
#[derive(Debug, Clone)]
pub struct RevisionTable {
    pub key: String,
    pub entries: Vec<Entry>,
}

/// The rows of a revision table, as `(code, name)` pairs of views.
pub open spec fn table_view(s: Seq<Entry>) -> Table {
    s.map_values(|e: Entry| (e.code@, e.name@))
}

/// The revisions of a source, as `(key, table)` pairs of views.
pub open spec fn store_view(s: Seq<RevisionTable>) -> Store {
    s.map_values(|rt: RevisionTable| (rt.key@, table_view(rt.entries@)))
}

/// The national-standard table of revision `200712`.
pub open spec fn gb_200712() -> Table {
    seq![
        ("110000"@, "北京市"@),
        ("110100"@, "市辖区"@),
        ("110101"@, "东城区"@),
        ("110102"@, "西城区"@),
        ("330000"@, "浙江省"@),
        ("330100"@, "杭州市"@),
        ("330102"@, "上城区"@),
        ("330105"@, "拱墅区"@),
        ("330200"@, "宁波市"@),
    ]
}

/// The national-standard table of revision `200212`.
pub open spec fn gb_200212() -> Table {
    seq![
        ("110000"@, "北京市"@),
        ("110100"@, "市辖区"@),
        ("110101"@, "东城区"@),
        ("330000"@, "浙江省"@),
        ("330100"@, "杭州市"@),
        ("330105"@, "拱墅区"@),
    ]
}

/// The statistics-bureau table of revision `2014`.
pub open spec fn stats_2014() -> Table {
    seq![("110000"@, "北京市"@), ("110100"@, "市辖区"@), ("110105"@, "朝阳区"@)]
}

/// The national-standard store: revisions in insertion order, newest first.
pub open spec fn gb_store() -> Store {
    seq![("200712"@, gb_200712()), ("200212"@, gb_200212())]
}

/// The statistics-bureau store.
pub open spec fn stats_store() -> Store {
    seq![("2014"@, stats_2014())]
}

/// The store of a source.
pub open spec fn store(source: Source) -> Store {
    match source {
        Source::GB => gb_store(),
        Source::Stats => stats_store(),
    }
}

/// What a lookup of `code` under `(source, rev)` yields: the division, or
/// the first error met on the way.
pub open spec fn spec_get(source: Source, rev: Seq<char>, code: Seq<char>) -> Result<
    DivisionModel,
    LookupError,
> {
    match find_table(store(source), rev) {
        Option::None => Result::Err(LookupError::UnknownRevision),
        Option::Some(t) => match find_name(t, code) {
            Option::None => Result::Err(LookupError::UnknownCode),
            Option::Some(name) => Result::Ok(
                DivisionModel { source, code, name, revision: rev },
            ),
        },
    }
}

/// A division obtained from a lookup can be looked up again by its own
/// fields, and the result equals it (division equality ignores the source).
pub proof fn lemma_get_round_trip(source: Source, revision: Seq<char>, code: Seq<char>)
    requires
        spec_get(source, revision, code) is Ok,
    ensures
        ({
            let d = spec_get(source, revision, code)->Ok_0;
            &&& spec_get(d.source, d.revision, d.code) == spec_get(source, revision, code)
            &&& division_model_eq(
                spec_get(d.source, d.revision, d.code)->Ok_0,
                d,
            )
        }),
{
}

proof fn seq_ne_at(a: Seq<char>, b: Seq<char>, i: int)
    requires
        0 <= i < a.len(),
        0 <= i < b.len(),
        a[i] != b[i],
    ensures
        a != b,
{
}

/// The store of either source is well-formed: its revision keys are
/// distinct, and within every revision table the codes are distinct
/// six-character strings.
pub proof fn lemma_store_well_formed(source: Source)
    ensures
        store_well_formed(store(source)),
{
    reveal_strlit("200712");
    reveal_strlit("200212");
    reveal_strlit("2014");
    reveal_strlit("110000");
    reveal_strlit("110100");
    reveal_strlit("110101");
    reveal_strlit("110102");
    reveal_strlit("110105");
    reveal_strlit("330000");
    reveal_strlit("330100");
    reveal_strlit("330102");
    reveal_strlit("330105");
    reveal_strlit("330200");
    seq_ne_at("110000"@, "110100"@, 3);
    seq_ne_at("110000"@, "110101"@, 3);
    seq_ne_at("110000"@, "110102"@, 3);
    seq_ne_at("110000"@, "110105"@, 3);
    seq_ne_at("110000"@, "330000"@, 0);
    seq_ne_at("110000"@, "330100"@, 0);
    seq_ne_at("110000"@, "330102"@, 0);
    seq_ne_at("110000"@, "330105"@, 0);
    seq_ne_at("110000"@, "330200"@, 0);
    seq_ne_at("110100"@, "110101"@, 5);
    seq_ne_at("110100"@, "110102"@, 5);
    seq_ne_at("110100"@, "110105"@, 5);
    seq_ne_at("110100"@, "330000"@, 0);
    seq_ne_at("110100"@, "330100"@, 0);
    seq_ne_at("110100"@, "330102"@, 0);
    seq_ne_at("110100"@, "330105"@, 0);
    seq_ne_at("110100"@, "330200"@, 0);
    seq_ne_at("110101"@, "110102"@, 5);
    seq_ne_at("110101"@, "330000"@, 0);
    seq_ne_at("110101"@, "330100"@, 0);
    seq_ne_at("110101"@, "330102"@, 0);
    seq_ne_at("110101"@, "330105"@, 0);
    seq_ne_at("110101"@, "330200"@, 0);
    seq_ne_at("110102"@, "330000"@, 0);
    seq_ne_at("110102"@, "330100"@, 0);
    seq_ne_at("110102"@, "330102"@, 0);
    seq_ne_at("110102"@, "330105"@, 0);
    seq_ne_at("110102"@, "330200"@, 0);
    seq_ne_at("330000"@, "330100"@, 3);
    seq_ne_at("330000"@, "330102"@, 3);
    seq_ne_at("330000"@, "330105"@, 3);
    seq_ne_at("330000"@, "330200"@, 3);
    seq_ne_at("330100"@, "330102"@, 5);
    seq_ne_at("330100"@, "330105"@, 5);
    seq_ne_at("330100"@, "330200"@, 3);
    seq_ne_at("330102"@, "330105"@, 5);
    seq_ne_at("330102"@, "330200"@, 3);
    seq_ne_at("330105"@, "330200"@, 3);
    seq_ne_at("200712"@, "200212"@, 3);
    assert(table_codes_unique(gb_200712()));
    assert(table_codes_six_chars(gb_200712()));
    assert(table_codes_unique(gb_200212()));
    assert(table_codes_six_chars(gb_200212()));
    assert(table_codes_unique(stats_2014()));
    assert(table_codes_six_chars(stats_2014()));
}

/// Every revision table of either source is navigable: for each of its
/// entries the derived province code — and, off the province level, the
/// derived prefecture code — is present in the same table.
pub proof fn lemma_store_navigable(source: Source)
    ensures
        store_navigable(store(source)),
{
    lemma_store_well_formed(Source::GB);
    lemma_store_well_formed(Source::Stats);
    reveal_strlit("110000");
    reveal_strlit("110100");
    reveal_strlit("110101");
    reveal_strlit("110102");
    reveal_strlit("110105");
    reveal_strlit("330000");
    reveal_strlit("330100");
    reveal_strlit("330102");
    reveal_strlit("330105");
    reveal_strlit("330200");
    assert(gb_store()[0].1 == gb_200712());
    assert(gb_store()[1].1 == gb_200212());
    assert(stats_store()[0].1 == stats_2014());
    assert(table_codes_unique(gb_200712()));
    assert(table_codes_unique(gb_200212()));
    assert(table_codes_unique(stats_2014()));
    assert(province_code_of("110000"@) =~= "110000"@);
    assert(province_code_of("110100"@) =~= "110000"@);
    assert(province_code_of("110101"@) =~= "110000"@);
    assert(province_code_of("110102"@) =~= "110000"@);
    assert(province_code_of("110105"@) =~= "110000"@);
    assert(province_code_of("330000"@) =~= "330000"@);
    assert(province_code_of("330100"@) =~= "330000"@);
    assert(province_code_of("330102"@) =~= "330000"@);
    assert(province_code_of("330105"@) =~= "330000"@);
    assert(province_code_of("330200"@) =~= "330000"@);
    assert(prefecture_code_of("110100"@) =~= "110100"@);
    assert(prefecture_code_of("110101"@) =~= "110100"@);
    assert(prefecture_code_of("110102"@) =~= "110100"@);
    assert(prefecture_code_of("110105"@) =~= "110100"@);
    assert(prefecture_code_of("330100"@) =~= "330100"@);
    assert(prefecture_code_of("330102"@) =~= "330100"@);
    assert(prefecture_code_of("330105"@) =~= "330100"@);
    assert(prefecture_code_of("330200"@) =~= "330200"@);
    assert(find_name(gb_200712(), "110000"@) is Some) by {
        reveal_with_fuel(find_name, 10);
    }
    assert(find_name(gb_200712(), "110100"@) is Some) by {
        reveal_with_fuel(find_name, 10);
    }
    assert(find_name(gb_200712(), "330000"@) is Some) by {
        reveal_with_fuel(find_name, 10);
    }
    assert(find_name(gb_200712(), "330100"@) is Some) by {
        reveal_with_fuel(find_name, 10);
    }
    assert(find_name(gb_200712(), "330200"@) is Some) by {
        reveal_with_fuel(find_name, 10);
    }
    assert(find_name(gb_200212(), "110000"@) is Some) by {
        reveal_with_fuel(find_name, 10);
    }
    assert(find_name(gb_200212(), "110100"@) is Some) by {
        reveal_with_fuel(find_name, 10);
    }
    assert(find_name(gb_200212(), "330000"@) is Some) by {
        reveal_with_fuel(find_name, 10);
    }
    assert(find_name(gb_200212(), "330100"@) is Some) by {
        reveal_with_fuel(find_name, 10);
    }
    assert(find_name(stats_2014(), "110000"@) is Some) by {
        reveal_with_fuel(find_name, 10);
    }
    assert(find_name(stats_2014(), "110100"@) is Some) by {
        reveal_with_fuel(find_name, 10);
    }
    assert(table_navigable(gb_200712()));
    assert(table_navigable(gb_200212()));
    assert(table_navigable(stats_2014()));
}

fn entry(code: &str, name: &str) -> (e: Entry)
    ensures
        e.code@ == code@,
        e.name@ == name@,
{
    Entry { code: code.to_owned(), name: name.to_owned() }
}

fn table_gb_200712() -> (rt: RevisionTable)
    ensures
        rt.key@ == "200712"@,
        table_view(rt.entries@) == gb_200712(),
{
    let mut entries: Vec<Entry> = Vec::new();
    entries.push(entry("110000", "北京市"));
    entries.push(entry("110100", "市辖区"));
    entries.push(entry("110101", "东城区"));
    entries.push(entry("110102", "西城区"));
    entries.push(entry("330000", "浙江省"));
    entries.push(entry("330100", "杭州市"));
    entries.push(entry("330102", "上城区"));
    entries.push(entry("330105", "拱墅区"));
    entries.push(entry("330200", "宁波市"));
    proof {
        assert(table_view(entries@) =~= gb_200712());
    }
    RevisionTable { key: "200712".to_owned(), entries }
}

fn table_gb_200212() -> (rt: RevisionTable)
    ensures
        rt.key@ == "200212"@,
        table_view(rt.entries@) == gb_200212(),
{
    let mut entries: Vec<Entry> = Vec::new();
    entries.push(entry("110000", "北京市"));
    entries.push(entry("110100", "市辖区"));
    entries.push(entry("110101", "东城区"));
    entries.push(entry("330000", "浙江省"));
    entries.push(entry("330100", "杭州市"));
    entries.push(entry("330105", "拱墅区"));
    proof {
        assert(table_view(entries@) =~= gb_200212());
    }
    RevisionTable { key: "200212".to_owned(), entries }
}

fn table_stats_2014() -> (rt: RevisionTable)
    ensures
        rt.key@ == "2014"@,
        table_view(rt.entries@) == stats_2014(),
{
    let mut entries: Vec<Entry> = Vec::new();
    entries.push(entry("110000", "北京市"));
    entries.push(entry("110100", "市辖区"));
    entries.push(entry("110105", "朝阳区"));
    proof {
        assert(table_view(entries@) =~= stats_2014());
    }
    RevisionTable { key: "2014".to_owned(), entries }
}

/// The full store of a source; its content equals the spec-level `store`.
pub fn data(source: Source) -> (r: Vec<RevisionTable>)
    ensures
        store_view(r@) == store(source),
{
    match source {
        Source::GB => {
            let mut v: Vec<RevisionTable> = Vec::new();
            v.push(table_gb_200712());
            v.push(table_gb_200212());
            proof {
                assert(store_view(v@) =~= gb_store());
            }
            v
        },
        Source::Stats => {
            let mut v: Vec<RevisionTable> = Vec::new();
            v.push(table_stats_2014());
            proof {
                assert(store_view(v@) =~= stats_store());
            }
            v
        },
    }
}

} // verus!
