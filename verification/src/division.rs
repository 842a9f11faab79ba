//! A division: one named entity at some administrative level, scoped to a
//! source and a revision.

use crate::codes::{
    is_county, is_county_code, is_prefecture, is_prefecture_code, is_province, is_province_code,
    prefecture_code_of, province_code_of, str_starts_with,
};
use crate::model::{
    DivisionModel, LookupError, Source, county_divisions, find_table, prefecture_divisions,
};
use crate::queries::{find_table_index, get};
use crate::store::{data, spec_get, store, table_view};
use vstd::prelude::*;

verus! {

/// One row of a revision table, bound to its `(source, revision, code)`
/// triple. A transient view over the store: navigation re-queries the store
/// by derived codes.
#[derive(Debug, Clone)]
pub struct Division {
    pub source: Source,
    pub code: String,
    pub name: String,
    pub revision: String,
}

impl View for Division {
    type V = DivisionModel;

    open spec fn view(&self) -> DivisionModel {
        DivisionModel {
            source: self.source,
            code: self.code@,
            name: self.name@,
            revision: self.revision@,
        }
    }
}

/// Two divisions are equal iff code, name and revision match; the source is
/// not compared.
impl PartialEq for Division {
    fn eq(&self, other: &Division) -> (r: bool) {
        self.code == other.code && self.name == other.name && self.revision == other.revision
    }
}

impl vstd::std_specs::cmp::PartialEqSpecImpl for Division {
    open spec fn obeys_eq_spec() -> bool {
        true
    }

    open spec fn eq_spec(&self, other: &Division) -> bool {
        &&& self.code@ == other.code@
        &&& self.name@ == other.name@
        &&& self.revision@ == other.revision@
    }
}

/// The models of a sequence of divisions, in order.
pub open spec fn divisions_view(s: Seq<Division>) -> Seq<DivisionModel> {
    s.map_values(|d: Division| d@)
}

/// The model of a lookup result.
pub open spec fn result_view(r: Result<Division, LookupError>) -> Result<
    DivisionModel,
    LookupError,
> {
    match r {
        Result::Ok(d) => Result::Ok(d@),
        Result::Err(e) => Result::Err(e),
    }
}

impl Division {
    /// The code split into its province, prefecture and county segments.
    pub fn parsed_code(&self) -> (r: (&str, &str, &str))
        requires
            self.code@.len() == 6,
        ensures
            r.0@ == self.code@.subrange(0, 2),
            r.1@ == self.code@.subrange(2, 4),
            r.2@ == self.code@.subrange(4, 6),
    {
        let code = self.code.as_str();
        (code.substring_char(0, 2), code.substring_char(2, 4), code.substring_char(4, 6))
    }

    /// True iff this division's code is province-level.
    pub fn is_province(&self) -> (r: bool)
        ensures
            r == is_province_code(self.code@),
    {
        is_province(self.code.as_str())
    }

    /// True iff this division's code is prefecture-level.
    pub fn is_prefecture(&self) -> (r: bool)
        ensures
            r == is_prefecture_code(self.code@),
    {
        is_prefecture(self.code.as_str())
    }

    /// True iff this division's code is county-level.
    pub fn is_county(&self) -> (r: bool)
        ensures
            r == is_county_code(self.code@),
    {
        is_county(self.code.as_str())
    }

    /// The division's province: code `PP0000` looked up under the same
    /// source and revision.
    pub fn province(&self) -> (r: Result<Division, LookupError>)
        requires
            self.code@.len() >= 2,
        ensures
            result_view(r) == spec_get(self.source, self.revision@, province_code_of(self.code@)),
    {
        let pp = self.code.as_str().substring_char(0, 2);
        let code = pp.to_owned().concat("0000");
        proof {
            reveal_strlit("0000");
            assert("0000"@ =~= seq!['0', '0', '0', '0']);
            assert(code@ == province_code_of(self.code@));
        }
        get(self.source, self.revision.as_str(), code)
    }

    /// The division's prefecture: code `PPFF00` looked up under the same
    /// source and revision.
    pub fn prefecture(&self) -> (r: Result<Division, LookupError>)
        requires
            self.code@.len() >= 4,
        ensures
            result_view(r) == spec_get(
                self.source,
                self.revision@,
                prefecture_code_of(self.code@),
            ),
    {
        let ppff = self.code.as_str().substring_char(0, 4);
        let code = ppff.to_owned().concat("00");
        proof {
            reveal_strlit("00");
            assert("00"@ =~= seq!['0', '0']);
            assert(code@ == prefecture_code_of(self.code@));
        }
        get(self.source, self.revision.as_str(), code)
    }

    /// For a province: every prefecture-level division of the same revision
    /// whose code shares this division's two-character province prefix, in
    /// table order. For any other division: absence.
    pub fn prefectures(&self) -> (r: Option<Vec<Division>>)
        requires
            is_province_code(self.code@) ==> find_table(
                store(self.source),
                self.revision@,
            ) is Some,
        ensures
            r is Some <==> is_province_code(self.code@),
            r is Some ==> divisions_view(r->Some_0@) == prefecture_divisions(
                self.source,
                self.revision@,
                find_table(store(self.source), self.revision@)->Some_0,
                self.code@.subrange(0, 2),
            ),
    {
        if !self.is_province() {
            return None;
        }
        let prefix = self.code.as_str().substring_char(0, 2);
        let tables = data(self.source);
        let i: usize = match find_table_index(&tables, self.revision.as_str()) {
            None => {
                return unreached();
            },
            Some(i) => i,
        };
        let entries = &tables[i].entries;
        let ghost t = table_view(entries@);
        let n: usize = entries.len();
        let mut out: Vec<Division> = Vec::new();
        let mut j: usize = 0;
        while j < n
            invariant
                n == entries@.len(),
                t == table_view(entries@),
                t.len() == n,
                j <= n,
                prefix@ == self.code@.subrange(0, 2),
                divisions_view(out@) == prefecture_divisions(
                    self.source,
                    self.revision@,
                    t.take(j as int),
                    prefix@,
                ),
            decreases n - j,
        {
            proof {
                assert(t.take(j as int + 1).drop_last() =~= t.take(j as int));
                assert(t.take(j as int + 1).last() == t[j as int]);
                assert(t[j as int] == (entries@[j as int].code@, entries@[j as int].name@));
            }
            if is_prefecture(entries[j].code.as_str()) && str_starts_with(
                entries[j].code.as_str(),
                prefix,
            ) {
                let d = Division {
                    source: self.source,
                    code: entries[j].code.clone(),
                    name: entries[j].name.clone(),
                    revision: self.revision.clone(),
                };
                out.push(d);
                proof {
                    assert(divisions_view(out@) =~= prefecture_divisions(
                        self.source,
                        self.revision@,
                        t.take(j as int + 1),
                        prefix@,
                    ));
                }
            } else {
                proof {
                    assert(divisions_view(out@) =~= prefecture_divisions(
                        self.source,
                        self.revision@,
                        t.take(j as int + 1),
                        prefix@,
                    ));
                }
            }
            j += 1;
        }
        proof {
            assert(t.take(n as int) =~= t);
        }
        Some(out)
    }

    /// For a prefecture: every division of the same revision whose code
    /// shares this division's four-character prefix, in table order — the
    /// prefecture's own entry among them. For any other division: absence.
    pub fn counties(&self) -> (r: Option<Vec<Division>>)
        requires
            is_prefecture_code(self.code@) ==> self.code@.len() >= 4,
            is_prefecture_code(self.code@) ==> find_table(
                store(self.source),
                self.revision@,
            ) is Some,
        ensures
            r is Some <==> is_prefecture_code(self.code@),
            r is Some ==> divisions_view(r->Some_0@) == county_divisions(
                self.source,
                self.revision@,
                find_table(store(self.source), self.revision@)->Some_0,
                self.code@.subrange(0, 4),
            ),
    {
        if !self.is_prefecture() {
            return None;
        }
        let prefix = self.code.as_str().substring_char(0, 4);
        let tables = data(self.source);
        let i: usize = match find_table_index(&tables, self.revision.as_str()) {
            None => {
                return unreached();
            },
            Some(i) => i,
        };
        let entries = &tables[i].entries;
        let ghost t = table_view(entries@);
        let n: usize = entries.len();
        let mut out: Vec<Division> = Vec::new();
        let mut j: usize = 0;
        while j < n
            invariant
                n == entries@.len(),
                t == table_view(entries@),
                t.len() == n,
                j <= n,
                prefix@ == self.code@.subrange(0, 4),
                divisions_view(out@) == county_divisions(
                    self.source,
                    self.revision@,
                    t.take(j as int),
                    prefix@,
                ),
            decreases n - j,
        {
            proof {
                assert(t.take(j as int + 1).drop_last() =~= t.take(j as int));
                assert(t.take(j as int + 1).last() == t[j as int]);
                assert(t[j as int] == (entries@[j as int].code@, entries@[j as int].name@));
            }
            if str_starts_with(entries[j].code.as_str(), prefix) {
                let d = Division {
                    source: self.source,
                    code: entries[j].code.clone(),
                    name: entries[j].name.clone(),
                    revision: self.revision.clone(),
                };
                out.push(d);
                proof {
                    assert(divisions_view(out@) =~= county_divisions(
                        self.source,
                        self.revision@,
                        t.take(j as int + 1),
                        prefix@,
                    ));
                }
            } else {
                proof {
                    assert(divisions_view(out@) =~= county_divisions(
                        self.source,
                        self.revision@,
                        t.take(j as int + 1),
                        prefix@,
                    ));
                }
            }
            j += 1;
        }
        proof {
            assert(t.take(n as int) =~= t);
        }
        Some(out)
    }
}

} // verus!
