//! The public query surface: direct lookup and listing queries.

use crate::codes::{is_prefecture, is_province, str_eq};
use crate::division::{Division, divisions_view, result_view};
use crate::model::{
    LookupError, Source, Store, Table, find_name, find_table, keys_of, prefecture_divisions,
    province_divisions,
};
use crate::store::{Entry, RevisionTable, data, spec_get, store, store_view, table_view};
use vstd::prelude::*;

verus! {

proof fn lemma_find_table_step(s: Store, rev: Seq<char>, i: int)
    requires
        0 <= i < s.len(),
        s[i].0 != rev,
    ensures
        find_table(s.skip(i), rev) == find_table(s.skip(i + 1), rev),
{
    assert(s.skip(i)[0] == s[i]);
    assert(s.skip(i).drop_first() =~= s.skip(i + 1));
}

proof fn lemma_find_name_step(t: Table, code: Seq<char>, i: int)
    requires
        0 <= i < t.len(),
        t[i].0 != code,
    ensures
        find_name(t.skip(i), code) == find_name(t.skip(i + 1), code),
{
    assert(t.skip(i)[0] == t[i]);
    assert(t.skip(i).drop_first() =~= t.skip(i + 1));
}

/// The index of the revision table keyed by `revision`, if any.
pub(crate) fn find_table_index(tables: &Vec<RevisionTable>, revision: &str) -> (r: Option<usize>)
    ensures
        match r {
            Option::Some(i) => {
                &&& i < tables@.len()
                &&& tables@[i as int].key@ == revision@
                &&& find_table(store_view(tables@), revision@) == Option::Some(
                    table_view(tables@[i as int].entries@),
                )
            },
            Option::None => find_table(store_view(tables@), revision@) is None,
        },
{
    let ghost sv = store_view(tables@);
    let n: usize = tables.len();
    proof {
        assert(sv.skip(0) =~= sv);
    }
    let mut i: usize = 0;
    while i < n
        invariant
            sv == store_view(tables@),
            n == tables@.len(),
            sv.len() == n,
            i <= n,
            find_table(sv, revision@) == find_table(sv.skip(i as int), revision@),
        decreases n - i,
    {
        proof {
            assert(sv.skip(i as int)[0] == sv[i as int]);
            assert(sv[i as int] == (tables@[i as int].key@, table_view(tables@[i as int].entries@)));
        }
        if str_eq(tables[i].key.as_str(), revision) {
            return Some(i);
        }
        proof {
            lemma_find_table_step(sv, revision@, i as int);
        }
        i += 1;
    }
    proof {
        assert(sv.skip(n as int) =~= Seq::<(Seq<char>, Table)>::empty());
    }
    None
}

/// The index of the entry keyed by `code`, if any.
pub(crate) fn find_name_index(entries: &Vec<Entry>, code: &str) -> (r: Option<usize>)
    ensures
        match r {
            Option::Some(i) => {
                &&& i < entries@.len()
                &&& entries@[i as int].code@ == code@
                &&& find_name(table_view(entries@), code@) == Option::Some(
                    entries@[i as int].name@,
                )
            },
            Option::None => find_name(table_view(entries@), code@) is None,
        },
{
    let ghost tv = table_view(entries@);
    let n: usize = entries.len();
    proof {
        assert(tv.skip(0) =~= tv);
    }
    let mut i: usize = 0;
    while i < n
        invariant
            tv == table_view(entries@),
            n == entries@.len(),
            tv.len() == n,
            i <= n,
            find_name(tv, code@) == find_name(tv.skip(i as int), code@),
        decreases n - i,
    {
        proof {
            assert(tv.skip(i as int)[0] == tv[i as int]);
            assert(tv[i as int] == (entries@[i as int].code@, entries@[i as int].name@));
        }
        if str_eq(entries[i].code.as_str(), code) {
            return Some(i);
        }
        proof {
            lemma_find_name_step(tv, code@, i as int);
        }
        i += 1;
    }
    proof {
        assert(tv.skip(n as int) =~= Seq::<(Seq<char>, Seq<char>)>::empty());
    }
    None
}

/// Looks `code` up under `(source, revision)`. Returns the division, or
/// `UnknownRevision` when the revision is absent from the source's store,
/// or `UnknownCode` when the code is absent from the revision's table.
pub fn get(source: Source, revision: &str, code: String) -> (r: Result<Division, LookupError>)
    ensures
        result_view(r) == spec_get(source, revision@, code@),
{
    let tables = data(source);
    match find_table_index(&tables, revision) {
        None => Err(LookupError::UnknownRevision),
        Some(i) => {
            match find_name_index(&tables[i].entries, code.as_str()) {
                None => Err(LookupError::UnknownCode),
                Some(j) => {
                    let name = tables[i].entries[j].name.clone();
                    Ok(Division { source, code, name, revision: revision.to_owned() })
                },
            }
        },
    }
}

/// Every revision key known for a source, in insertion order.
pub fn revisions(source: Source) -> (r: Vec<String>)
    ensures
        r@.map_values(|s: String| s@) == keys_of(store(source)),
{
    let tables = data(source);
    let n: usize = tables.len();
    let mut out: Vec<String> = Vec::new();
    let mut i: usize = 0;
    while i < n
        invariant
            n == tables@.len(),
            i <= n,
            out@.len() == i,
            forall|j: int| 0 <= j < i ==> out@[j]@ == tables@[j].key@,
        decreases n - i,
    {
        out.push(tables[i].key.clone());
        i += 1;
    }
    proof {
        assert(out@.map_values(|s: String| s@) =~= keys_of(store_view(tables@)));
    }
    out
}

/// All divisions of `(source, revision)` whose codes are province-level, in
/// table order; `UnknownRevision` when the revision is absent.
pub fn provinces(source: Source, revision: &str) -> (r: Result<Vec<Division>, LookupError>)
    ensures
        match r {
            Result::Ok(v) => {
                &&& find_table(store(source), revision@) is Some
                &&& divisions_view(v@) == province_divisions(
                    source,
                    revision@,
                    find_table(store(source), revision@)->Some_0,
                )
            },
            Result::Err(e) => {
                &&& e == LookupError::UnknownRevision
                &&& find_table(store(source), revision@) is None
            },
        },
{
    let tables = data(source);
    let i: usize = match find_table_index(&tables, revision) {
        None => {
            return Err(LookupError::UnknownRevision);
        },
        Some(i) => i,
    };
    let entries = &tables[i].entries;
    let ghost t = table_view(entries@);
    let n: usize = entries.len();
    let mut out: Vec<Division> = Vec::new();
    let mut j: usize = 0;
    while j < n
        invariant
            n == entries@.len(),
            t == table_view(entries@),
            t.len() == n,
            j <= n,
            divisions_view(out@) == province_divisions(source, revision@, t.take(j as int)),
        decreases n - j,
    {
        proof {
            assert(t.take(j as int + 1).drop_last() =~= t.take(j as int));
            assert(t.take(j as int + 1).last() == t[j as int]);
            assert(t[j as int] == (entries@[j as int].code@, entries@[j as int].name@));
        }
        if is_province(entries[j].code.as_str()) {
            let d = Division {
                source,
                code: entries[j].code.clone(),
                name: entries[j].name.clone(),
                revision: revision.to_owned(),
            };
            out.push(d);
            proof {
                assert(divisions_view(out@) =~= province_divisions(
                    source,
                    revision@,
                    t.take(j as int + 1),
                ));
            }
        } else {
            proof {
                assert(divisions_view(out@) =~= province_divisions(
                    source,
                    revision@,
                    t.take(j as int + 1),
                ));
            }
        }
        j += 1;
    }
    proof {
        assert(t.take(n as int) =~= t);
    }
    Ok(out)
}

/// All divisions of `(source, revision)` whose codes are prefecture-level,
/// in table order; `UnknownRevision` when the revision is absent.
pub fn prefectures(source: Source, revision: &str) -> (r: Result<Vec<Division>, LookupError>)
    ensures
        match r {
            Result::Ok(v) => {
                &&& find_table(store(source), revision@) is Some
                &&& divisions_view(v@) == prefecture_divisions(
                    source,
                    revision@,
                    find_table(store(source), revision@)->Some_0,
                    Seq::<char>::empty(),
                )
            },
            Result::Err(e) => {
                &&& e == LookupError::UnknownRevision
                &&& find_table(store(source), revision@) is None
            },
        },
{
    let tables = data(source);
    let i: usize = match find_table_index(&tables, revision) {
        None => {
            return Err(LookupError::UnknownRevision);
        },
        Some(i) => i,
    };
    let entries = &tables[i].entries;
    let ghost t = table_view(entries@);
    let n: usize = entries.len();
    let mut out: Vec<Division> = Vec::new();
    let mut j: usize = 0;
    while j < n
        invariant
            n == entries@.len(),
            t == table_view(entries@),
            t.len() == n,
            j <= n,
            divisions_view(out@) == prefecture_divisions(
                source,
                revision@,
                t.take(j as int),
                Seq::<char>::empty(),
            ),
        decreases n - j,
    {
        proof {
            assert(t.take(j as int + 1).drop_last() =~= t.take(j as int));
            assert(t.take(j as int + 1).last() == t[j as int]);
            assert(t[j as int] == (entries@[j as int].code@, entries@[j as int].name@));
            assert(entries@[j as int].code@.subrange(0, 0) =~= Seq::<char>::empty());
        }
        if is_prefecture(entries[j].code.as_str()) {
            let d = Division {
                source,
                code: entries[j].code.clone(),
                name: entries[j].name.clone(),
                revision: revision.to_owned(),
            };
            out.push(d);
            proof {
                assert(divisions_view(out@) =~= prefecture_divisions(
                    source,
                    revision@,
                    t.take(j as int + 1),
                    Seq::<char>::empty(),
                ));
            }
        } else {
            proof {
                assert(divisions_view(out@) =~= prefecture_divisions(
                    source,
                    revision@,
                    t.take(j as int + 1),
                    Seq::<char>::empty(),
                ));
            }
        }
        j += 1;
    }
    proof {
        assert(t.take(n as int) =~= t);
    }
    Ok(out)
}

} // verus!

