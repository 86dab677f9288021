//! Schema-level helpers shared by every relational backend: ordering the
//! table list by name, and finding one table's schema in it.

use vstd::prelude::*;
use vstd::multiset::Multiset;

use crate::model::{AppError, TableSchema};
use crate::text::{chars_le, lemma_chars_le_total, lemma_chars_le_trans, string_le};

verus! {

/// Tables in non-decreasing name order.
pub open spec fn tables_sorted(s: Seq<TableSchema>) -> bool {
    forall|i: int, j: int|
        0 <= i < j < s.len() ==> chars_le(#[trigger] s[i].name@, #[trigger] s[j].name@)
}

/// Orders a table list by table name. The result holds exactly the given
/// tables, in non-decreasing name order.
pub fn sort_tables_by_name(tables: Vec<TableSchema>) -> (r: Vec<TableSchema>)
    ensures
        tables_sorted(r@),
        r@.to_multiset() == tables@.to_multiset(),
        r@.len() == tables@.len(),
{
    broadcast use vstd::seq_lib::group_to_multiset_ensures;

    let ghost orig = tables@;
    let mut src = tables;
    let mut r: Vec<TableSchema> = Vec::new();
    proof {
        assert(r@.to_multiset().add(src@.to_multiset()) =~= orig.to_multiset());
        assert(orig.to_multiset().len() == orig.len());
    }
    while src.len() > 0
        invariant
            r@.to_multiset().add(src@.to_multiset()) == orig.to_multiset(),
            r@.len() + src@.len() == orig.len(),
            tables_sorted(r@),
            forall|i: int, j: int|
                0 <= i < r@.len() && 0 <= j < src@.len() ==> chars_le(
                    #[trigger] r@[i].name@,
                    #[trigger] src@[j].name@,
                ),
        decreases src@.len(),
    {
        let n = src.len();
        proof {
            lemma_chars_le_total(src@[0].name@, src@[0].name@);
        }
        let mut m: usize = 0;
        let mut j: usize = 1;
        while j < n
            invariant
                n == src@.len(),
                m < j <= n,
                forall|k: int| 0 <= k < j ==> chars_le(src@[m as int].name@, #[trigger] src@[k].name@),
            decreases n - j,
        {
            if string_le(src[j].name.as_str(), src[m].name.as_str()) {
                proof {
                    let ghost old_m = m as int;
                    assert forall|k: int| 0 <= k < j + 1 implies chars_le(
                        src@[j as int].name@,
                        #[trigger] src@[k].name@,
                    ) by {
                        if k < j {
                            lemma_chars_le_trans(src@[j as int].name@, src@[old_m].name@, src@[k].name@);
                        } else {
                            lemma_chars_le_total(src@[j as int].name@, src@[j as int].name@);
                        }
                    }
                }
                m = j;
            } else {
                proof {
                    lemma_chars_le_total(src@[j as int].name@, src@[m as int].name@);
                    assert(chars_le(src@[m as int].name@, src@[j as int].name@));
                }
            }
            j = j + 1;
        }
        let ghost pre_src = src@;
        let ghost pre_r = r@;
        let x = src.remove(m);
        r.push(x);
        proof {
            pre_src.to_multiset_ensures();
            pre_r.to_multiset_ensures();
            assert(pre_src.remove(m as int).to_multiset() =~= pre_src.to_multiset().remove(
                pre_src[m as int],
            ));
            assert(pre_r.push(x).to_multiset() =~= pre_r.to_multiset().insert(x));
            assert(pre_src.to_multiset().count(x) > 0) by {
                assert(pre_src.contains(x)) by {
                    assert(pre_src[m as int] == x);
                }
            }
            assert(r@.to_multiset().add(src@.to_multiset()) =~= orig.to_multiset());
            assert forall|i: int, j2: int|
                0 <= i < r@.len() && 0 <= j2 < src@.len() implies chars_le(
                #[trigger] r@[i].name@,
                #[trigger] src@[j2].name@,
            ) by {
                let moved_from = if j2 < m { j2 } else { j2 + 1 };
                assert(src@[j2] == pre_src[moved_from]);
                if i < pre_r.len() {
                    assert(r@[i] == pre_r[i]);
                } else {
                    assert(r@[i] == x);
                }
            }
            assert(tables_sorted(r@)) by {
                assert forall|i: int, j2: int| 0 <= i < j2 < r@.len() implies chars_le(
                    #[trigger] r@[i].name@,
                    #[trigger] r@[j2].name@,
                ) by {
                    if j2 < pre_r.len() {
                        assert(r@[i] == pre_r[i] && r@[j2] == pre_r[j2]);
                    } else {
                        assert(r@[j2] == x && r@[i] == pre_r[i]);
                        assert(pre_src[m as int] == x);
                    }
                }
            }
        }
    }
    proof {
        assert(src@.to_multiset() =~= Multiset::<TableSchema>::empty());
        assert(r@.to_multiset().add(Multiset::<TableSchema>::empty()) =~= r@.to_multiset());
    }
    r
}

/// The given position holds the first table of that name.
pub open spec fn found_at(tables: Seq<TableSchema>, name: Seq<char>, i: int) -> bool {
    &&& 0 <= i < tables.len()
    &&& tables[i].name@ == name
    &&& forall|j: int| 0 <= j < i ==> (#[trigger] tables[j]).name@ != name
}

/// The position of the first table of the given name, if any.
fn table_index(tables: &Vec<TableSchema>, name: &str) -> (r: Option<usize>)
    ensures
        match r {
            Some(i) => found_at(tables@, name@, i as int),
            None => forall|i: int| 0 <= i < tables@.len() ==> (#[trigger] tables@[i]).name@ != name@,
        },
{
    let n = tables.len();
    let mut i: usize = 0;
    while i < n
        invariant
            n == tables@.len(),
            i <= n,
            forall|j: int| 0 <= j < i ==> (#[trigger] tables@[j]).name@ != name@,
        decreases n - i,
    {
        let c = crate::text::str_chars(tables[i].name.as_str());
        if crate::text::chars_eq_str(c.as_slice(), name) {
            return Some(i);
        }
        i = i + 1;
    }
    None
}

/// Finds the first table of the given name, or reports that the table is
/// absent from the schema.
pub fn find_table(tables: Vec<TableSchema>, name: &str) -> (r: Result<TableSchema, AppError>)
    ensures
        match r {
            Ok(t) => exists|i: int| found_at(tables@, name@, i) && t == tables@[i],
            Err(e) => {
                &&& forall|i: int| 0 <= i < tables@.len() ==> (#[trigger] tables@[i]).name@ != name@
                &&& e matches AppError::NotFound(m) && m@ == "Table "@ + name@ + " not found"@
            },
        },
{
    match table_index(&tables, name) {
        Some(i) => {
            let ghost pre = tables@;
            let mut tables = tables;
            let t = tables.remove(i);
            proof {
                assert(found_at(pre, name@, i as int) && t == pre[i as int]);
            }
            Ok(t)
        },
        None => Err(
            AppError::NotFound(String::from_str("Table ").concat(name).concat(" not found")),
        ),
    }
}

} // verus!
