//! Mathematical model of the registry.
//!
//! A revision table is a sequence of `(code, name)` pairs; a store is a
//! sequence of `(revision key, table)` pairs. Both keep the order the data
//! was inserted in, and lookups return the first match.

use crate::codes::{
    is_prefecture_code, is_province_code, prefecture_code_of, province_code_of, starts_with,
};
use vstd::prelude::*;

verus! {

/// One revision's table: `(code, name)` pairs in insertion order.
pub type Table = Seq<(Seq<char>, Seq<char>)>;

/// One source's store: `(revision key, table)` pairs in insertion order.
pub type Store = Seq<(Seq<char>, Table)>;

/// The standards body that issued a code table.
#[derive(Debug, PartialEq, Eq, Structural, Copy, Clone)]
pub enum Source {
    GB,
    Stats,
}

/// Why a lookup failed.
#[derive(Debug, PartialEq, Eq, Structural, Copy, Clone)]
pub enum LookupError {
    /// The requested revision is absent from the source's store.
    UnknownRevision,
    /// The requested code is absent from the revision's table.
    UnknownCode,
}

/// The mathematical content of a `Division` value.
pub struct DivisionModel {
    pub source: Source,
    pub code: Seq<char>,
    pub name: Seq<char>,
    pub revision: Seq<char>,
}

/// Division equality: code, name and revision match; the source is ignored.
pub open spec fn division_model_eq(a: DivisionModel, b: DivisionModel) -> bool {
    &&& a.code == b.code
    &&& a.name == b.name
    &&& a.revision == b.revision
}

/// The table of the first entry of `s` keyed by `rev`, if any.
pub open spec fn find_table(s: Store, rev: Seq<char>) -> Option<Table>
    decreases s.len(),
{
    if s.len() == 0 {
        None
    } else if s[0].0 == rev {
        Some(s[0].1)
    } else {
        find_table(s.drop_first(), rev)
    }
}

/// The name of the first entry of `t` keyed by `code`, if any.
pub open spec fn find_name(t: Table, code: Seq<char>) -> Option<Seq<char>>
    decreases t.len(),
{
    if t.len() == 0 {
        None
    } else if t[0].0 == code {
        Some(t[0].1)
    } else {
        find_name(t.drop_first(), code)
    }
}

/// The codes of one table are pairwise distinct.
pub open spec fn table_codes_unique(t: Table) -> bool {
    forall|i: int, j: int| 0 <= i < j < t.len() ==> t[i].0 != t[j].0
}

/// Every code of one table is six characters long.
pub open spec fn table_codes_six_chars(t: Table) -> bool {
    forall|i: int| 0 <= i < t.len() ==> t[i].0.len() == 6
}

/// The store's revision keys are pairwise distinct, and within every
/// revision table the codes are distinct six-character strings.
pub open spec fn store_well_formed(s: Store) -> bool {
    &&& forall|i: int, j: int| 0 <= i < j < s.len() ==> s[i].0 != s[j].0
    &&& forall|i: int| 0 <= i < s.len() ==> table_codes_unique(#[trigger] s[i].1)
    &&& forall|i: int| 0 <= i < s.len() ==> table_codes_six_chars(#[trigger] s[i].1)
}

/// Every entry's derived province code is in the table, and every
/// non-province entry's derived prefecture code as well: the navigation
/// methods find their target for any division taken from the table.
pub open spec fn table_navigable(t: Table) -> bool {
    &&& forall|i: int|
        0 <= i < t.len() ==> find_name(t, province_code_of(#[trigger] t[i].0)) is Some
    &&& forall|i: int|
        0 <= i < t.len() && !is_province_code(#[trigger] t[i].0) ==> find_name(
            t,
            prefecture_code_of(t[i].0),
        ) is Some
}

/// Every revision table of the store is navigable.
pub open spec fn store_navigable(s: Store) -> bool {
    forall|i: int| 0 <= i < s.len() ==> table_navigable(#[trigger] s[i].1)
}

/// The revision keys of `s`, in order.
pub open spec fn keys_of(s: Store) -> Seq<Seq<char>> {
    s.map_values(|p: (Seq<char>, Table)| p.0)
}

/// The divisions of `t` whose codes are province-level, in table order.
pub open spec fn province_divisions(source: Source, rev: Seq<char>, t: Table) -> Seq<DivisionModel>
    decreases t.len(),
{
    if t.len() == 0 {
        Seq::empty()
    } else {
        let rest = province_divisions(source, rev, t.drop_last());
        if is_province_code(t.last().0) {
            rest.push(
                DivisionModel { source, code: t.last().0, name: t.last().1, revision: rev },
            )
        } else {
            rest
        }
    }
}

/// The divisions of `t` whose codes are prefecture-level and start with
/// `prefix`, in table order.
pub open spec fn prefecture_divisions(
    source: Source,
    rev: Seq<char>,
    t: Table,
    prefix: Seq<char>,
) -> Seq<DivisionModel>
    decreases t.len(),
{
    if t.len() == 0 {
        Seq::empty()
    } else {
        let rest = prefecture_divisions(source, rev, t.drop_last(), prefix);
        if is_prefecture_code(t.last().0) && starts_with(t.last().0, prefix) {
            rest.push(
                DivisionModel { source, code: t.last().0, name: t.last().1, revision: rev },
            )
        } else {
            rest
        }
    }
}

/// The divisions of `t` whose codes start with `prefix`, in table order.
pub open spec fn county_divisions(
    source: Source,
    rev: Seq<char>,
    t: Table,
    prefix: Seq<char>,
) -> Seq<DivisionModel>
    decreases t.len(),
{
    if t.len() == 0 {
        Seq::empty()
    } else {
        let rest = county_divisions(source, rev, t.drop_last(), prefix);
        if starts_with(t.last().0, prefix) {
            rest.push(
                DivisionModel { source, code: t.last().0, name: t.last().1, revision: rev },
            )
        } else {
            rest
        }
    }
}

} // verus!
