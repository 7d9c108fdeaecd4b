//! The corpus schema as the agent's prompts show it.

use vstd::prelude::*;

use crate::text::{joined, text_less, text_lt, lemma_text_lt_total, lemma_text_lt_transitive};

verus! {

/// A table of the corpus and the names of its columns, in schema order.
pub struct TableColumns {
    pub name: String,
    pub columns: Vec<String>,
}

/// Whether the tables of `s` come in the order of their names.
pub open spec fn sorted_by_name(s: Seq<TableColumns>) -> bool {
    forall|i: int, j: int| 0 <= i < j < s.len() ==> !text_lt(s[j].name@, s[i].name@)
}

/// Orders the tables by name (the order of std's `str`), keeping every one.
pub fn sort_tables(v: Vec<TableColumns>) -> (r: Vec<TableColumns>)
    ensures
        sorted_by_name(r@),
        r@.to_multiset() == v@.to_multiset(),
{
    broadcast use vstd::seq_lib::group_to_multiset_ensures, vstd::multiset::group_multiset_axioms;

    let ghost orig = v@;
    let mut v = v;
    let mut r: Vec<TableColumns> = Vec::new();
    assert(r@.to_multiset() =~= vstd::multiset::Multiset::<TableColumns>::empty()) by {
        assert(r@.to_multiset().len() == 0);
    }
    while v.len() > 0
        invariant
            sorted_by_name(r@),
            r@.to_multiset().add(v@.to_multiset()) == orig.to_multiset(),
        decreases v.len(),
    {
        let ghost before_v = v@;
        let x = v.pop().unwrap();
        assert(before_v =~= v@.push(x));
        let mut p = r.len();
        while p > 0 && text_less(x.name.as_str(), r[p - 1].name.as_str())
            invariant
                p <= r.len(),
                forall|j: int| p <= j < r.len() ==> text_lt(x.name@, #[trigger] r@[j].name@),
            decreases p,
        {
            p = p - 1;
        }
        let ghost old_r = r@;
        r.insert(p, x);
        proof {
            assert(r@ == old_r.insert(p as int, x));
            vstd::seq_lib::to_multiset_insert(old_r, p as int, x);
            vstd::seq_lib::to_multiset_build(v@, x);
            assert(r@.to_multiset() == old_r.to_multiset().insert(x));
            assert(r@.to_multiset().add(v@.to_multiset()) =~= old_r.to_multiset().add(
                before_v.to_multiset(),
            ));
            assert forall|a: int, b: int| 0 <= a < b < r@.len() implies !text_lt(
                r@[b].name@,
                r@[a].name@,
            ) by {
                if a < p && b == p {
                    // x does not come before the table just before it
                    lemma_text_lt_total(x.name@, old_r[p - 1].name@);
                    if a < p - 1 {
                        lemma_text_lt_total(old_r[a].name@, old_r[p - 1].name@);
                        if text_lt(x.name@, old_r[a].name@) {
                            lemma_text_lt_transitive(x.name@, old_r[a].name@, old_r[p - 1].name@);
                            if old_r[a].name@ == old_r[p - 1].name@ {
                            }
                        }
                    }
                } else if a == p && b > p {
                    lemma_text_lt_total(x.name@, old_r[b - 1].name@);
                } else if a < p && b > p {
                    assert(!text_lt(old_r[b - 1].name@, old_r[a].name@));
                } else if a > p {
                    assert(!text_lt(old_r[b - 1].name@, old_r[a - 1].name@));
                }
            }
        }
    }
    assert(v@ =~= Seq::<TableColumns>::empty());
    assert(r@.to_multiset() =~= r@.to_multiset().add(v@.to_multiset()));
    r
}

/// The line that shows one column.
pub open spec fn column_line(c: Seq<char>) -> Seq<char> {
    "    "@ + c + "  uint64"@
}

/// The columns, one line each.
pub open spec fn column_lines(cs: Seq<String>) -> Seq<char>
    decreases cs.len(),
{
    if cs.len() == 0 {
        Seq::empty()
    } else if cs.len() == 1 {
        column_line(cs[0]@)
    } else {
        column_lines(cs.drop_last()) + "\n"@ + column_line(cs.last()@)
    }
}

/// The block that shows one table: its name, then its columns.
pub open spec fn table_block(t: TableColumns) -> Seq<char> {
    "  Table: "@ + t.name@ + "\n"@ + column_lines(t.columns@)
}

/// The tables, in the given order, with a blank line between two of them.
pub open spec fn schema_blocks(ts: Seq<TableColumns>) -> Seq<char>
    decreases ts.len(),
{
    if ts.len() == 0 {
        Seq::empty()
    } else if ts.len() == 1 {
        table_block(ts[0])
    } else {
        schema_blocks(ts.drop_last()) + "\n\n"@ + table_block(ts.last())
    }
}

fn append_columns(r: &mut String, cs: &Vec<String>)
    ensures
        final(r)@ == old(r)@ + column_lines(cs@),
{
    let ghost start = r@;
    let mut i: usize = 0;
    assert(cs@.take(0) =~= Seq::<String>::empty());
    while i < cs.len()
        invariant
            i <= cs.len(),
            r@ == start + column_lines(cs@.take(i as int)),
        decreases cs.len() - i,
    {
        if i > 0 {
            r.append("\n");
        }
        r.append("    ");
        r.append(cs[i].as_str());
        r.append("  uint64");
        proof {
            let t = cs@.take(i + 1);
            assert(t.drop_last() =~= cs@.take(i as int));
            assert(t.last() == cs@[i as int]);
            if i == 0 {
                assert(column_lines(t) == column_line(t[0]@));
            }
            assert(r@ =~= start + column_lines(t));
        }
        i = i + 1;
    }
    assert(cs@.take(cs.len() as int) =~= cs@);
}

/// The schema text of the prompts: each table's block, in the given order.
pub fn schema_text(tables: &Vec<TableColumns>) -> (r: String)
    ensures
        r@ == schema_blocks(tables@),
{
    let mut r = String::new();
    let mut i: usize = 0;
    assert(r@ =~= schema_blocks(tables@.take(0)));
    while i < tables.len()
        invariant
            i <= tables.len(),
            r@ == schema_blocks(tables@.take(i as int)),
        decreases tables.len() - i,
    {
        let ghost before = r@;
        if i > 0 {
            r.append("\n\n");
        }
        r.append("  Table: ");
        r.append(tables[i].name.as_str());
        r.append("\n");
        append_columns(&mut r, &tables[i].columns);
        proof {
            let t = tables@.take(i + 1);
            assert(t.drop_last() =~= tables@.take(i as int));
            assert(t.last() == tables@[i as int]);
            if i == 0 {
                assert(schema_blocks(t) == table_block(t[0]));
            }
            assert(r@ =~= schema_blocks(t));
        }
        i = i + 1;
    }
    assert(tables@.take(tables.len() as int) =~= tables@);
    r
}

/// A table's columns are listed in schema order, one per line: line `i`
/// shows column `cs[i]`.
pub proof fn lemma_column_lines_list_each_column(cs: Seq<String>)
    ensures
        column_lines(cs) == joined(Seq::new(cs.len(), |i: int| column_line(cs[i]@)), "\n"@),
    decreases cs.len(),
{
    let items = Seq::new(cs.len(), |i: int| column_line(cs[i]@));
    if cs.len() > 1 {
        lemma_column_lines_list_each_column(cs.drop_last());
        assert(items.drop_last() =~= Seq::new(
            cs.drop_last().len(),
            |i: int| column_line(cs.drop_last()[i]@),
        ));
    }
}

/// The tables are shown in the given order, a blank line between two:
/// block `i` shows table `ts[i]`.
pub proof fn lemma_schema_blocks_list_each_table(ts: Seq<TableColumns>)
    ensures
        schema_blocks(ts) == joined(Seq::new(ts.len(), |i: int| table_block(ts[i])), "\n\n"@),
    decreases ts.len(),
{
    let items = Seq::new(ts.len(), |i: int| table_block(ts[i]));
    if ts.len() > 1 {
        lemma_schema_blocks_list_each_table(ts.drop_last());
        assert(items.drop_last() =~= Seq::new(
            ts.drop_last().len(),
            |i: int| table_block(ts.drop_last()[i]),
        ));
    }
}

} // verus!
