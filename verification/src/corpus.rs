//! The content-addressed corpus: a set of named tables and their identity.

use vstd::prelude::*;

use crate::hash::{short_hash_hex, short_id};
use crate::sort::{keys_distinct, lemma_permutation_keeps_keys_distinct};
use crate::text::{lemma_text_lt_irreflexive, lemma_text_lt_total, lemma_text_lt_transitive, str_eq, text_less, text_lt};

verus! {

/// One table file of a corpus directory: the table's name (the file name
/// without its extension), where the file is, and its bytes.
pub struct TableFile {
    pub name: String,
    pub path: String,
    pub bytes: Vec<u8>,
}

/// A content-addressed, read-only collection of tables.
pub struct Corpus {
    corpus_id: String,
    tables: Vec<(String, String)>,
}

/// The bytes of all files, one after another.
pub open spec fn all_bytes(files: Seq<TableFile>) -> Seq<u8>
    decreases files.len(),
{
    if files.len() == 0 {
        Seq::empty()
    } else {
        all_bytes(files.drop_last()) + files.last().bytes@
    }
}

/// The tables named by the files, each name mapped to its file; a later
/// file of the same name replaces an earlier one.
pub open spec fn table_paths(files: Seq<TableFile>) -> Map<Seq<char>, Seq<char>>
    decreases files.len(),
{
    if files.len() == 0 {
        Map::empty()
    } else {
        table_paths(files.drop_last()).insert(files.last().name@, files.last().path@)
    }
}

/// The map held by a list of `(name, path)` entries.
pub open spec fn entries_map(v: Seq<(String, String)>) -> Map<Seq<char>, Seq<char>>
    decreases v.len(),
{
    if v.len() == 0 {
        Map::empty()
    } else {
        entries_map(v.drop_last()).insert(v.last().0@, v.last().1@)
    }
}

/// Whether no two entries share a name.
pub open spec fn unique_names(v: Seq<(String, String)>) -> bool {
    forall|i: int, j: int| 0 <= i < j < v.len() ==> (#[trigger] v[i]).0@ != (#[trigger] v[j]).0@
}

proof fn lemma_entries_map(v: Seq<(String, String)>)
    requires
        unique_names(v),
    ensures
        forall|k: Seq<char>|
            #[trigger] entries_map(v).dom().contains(k) <==> exists|i: int|
                0 <= i < v.len() && (#[trigger] v[i]).0@ == k,
        forall|i: int| 0 <= i < v.len() ==> entries_map(v)[(#[trigger] v[i]).0@] == v[i].1@,
    decreases v.len(),
{
    if v.len() > 0 {
        let w = v.drop_last();
        let last = v.last();
        assert forall|i: int, j: int| 0 <= i < j < w.len() implies (#[trigger] w[i]).0@ != (
        #[trigger] w[j]).0@ by {
            assert(w[i] == v[i] && w[j] == v[j]);
        }
        lemma_entries_map(w);
        assert(entries_map(v) == entries_map(w).insert(last.0@, last.1@));
        assert forall|k: Seq<char>|
            #[trigger] entries_map(v).dom().contains(k) <==> exists|i: int|
                0 <= i < v.len() && (#[trigger] v[i]).0@ == k by {
            if entries_map(v).dom().contains(k) {
                if k == last.0@ {
                    assert(v[v.len() - 1].0@ == k);
                } else {
                    assert(entries_map(w).dom().contains(k));
                    let i = choose|i: int| 0 <= i < w.len() && (#[trigger] w[i]).0@ == k;
                    assert(v[i] == w[i]);
                    assert(v[i].0@ == k);
                }
            }
            if exists|i: int| 0 <= i < v.len() && (#[trigger] v[i]).0@ == k {
                let i = choose|i: int| 0 <= i < v.len() && (#[trigger] v[i]).0@ == k;
                if i < v.len() - 1 {
                    assert(w[i] == v[i]);
                    assert(entries_map(w).dom().contains(k));
                }
            }
        }
        assert forall|i: int| 0 <= i < v.len() implies entries_map(v)[(#[trigger] v[i]).0@]
            == v[i].1@ by {
            if i < v.len() - 1 {
                assert(w[i] == v[i]);
                assert(v[i].0@ != v[v.len() - 1].0@);
                assert(entries_map(w)[w[i].0@] == w[i].1@);
            }
        }
    }
}

impl Corpus {
    #[verifier::type_invariant]
    spec fn names_are_unique(self) -> bool {
        unique_names(self.tables@)
    }

    /// The corpus id: the first 16 hex digits of the BLAKE3 digest of all
    /// table files' bytes, in file order.
    pub closed spec fn spec_corpus_id(&self) -> Seq<char> {
        self.corpus_id@
    }

    /// The corpus id.
    pub fn corpus_id(&self) -> (r: &str)
        ensures
            r@ == self.spec_corpus_id(),
    {
        self.corpus_id.as_str()
    }

    /// The tables of the corpus: each name mapped to its file.
    pub closed spec fn table_map(&self) -> Map<Seq<char>, Seq<char>> {
        entries_map(self.tables@)
    }

    /// The corpus held by these table files, in file order: its id is the
    /// short BLAKE3 address of all their bytes, one after another.
    pub fn from_table_files(files: &Vec<TableFile>) -> (c: Corpus)
        requires
            all_bytes(files@).len() <= usize::MAX,
        ensures
            c.spec_corpus_id() == short_id(all_bytes(files@)),
            c.table_map() == table_paths(files@),
    {
        let mut data: Vec<u8> = Vec::new();
        let mut tables: Vec<(String, String)> = Vec::new();
        let mut f: usize = 0;
        while f < files.len()
            invariant
                f <= files.len(),
                all_bytes(files@).len() <= usize::MAX,
                data@ == all_bytes(files@.subrange(0, f as int)),
                unique_names(tables@),
                entries_map(tables@) == table_paths(files@.subrange(0, f as int)),
            decreases files.len() - f,
        {
            let file = &files[f];
            assert(files@.subrange(0, f + 1).drop_last() =~= files@.subrange(0, f as int));
            proof {
                lemma_all_bytes_prefix(files@, f + 1);
            }
            let mut b: usize = 0;
            let ghost before = data@;
            while b < file.bytes.len()
                invariant
                    b <= file.bytes.len(),
                    data@ == before + file.bytes@.subrange(0, b as int),
                decreases file.bytes.len() - b,
            {
                data.push(file.bytes[b]);
                b = b + 1;
                assert(data@ =~= before + file.bytes@.subrange(0, b as int));
            }
            assert(file.bytes@.subrange(0, file.bytes@.len() as int) =~= file.bytes@);
            let ghost old_tables = tables@;
            let mut idx: usize = 0;
            while idx < tables.len() && !str_eq(tables[idx].0.as_str(), file.name.as_str())
                invariant
                    idx <= tables.len(),
                    forall|j: int| 0 <= j < idx ==> (#[trigger] tables@[j]).0@ != file.name@,
                decreases tables.len() - idx,
            {
                idx = idx + 1;
            }
            proof {
                lemma_entries_map(old_tables);
            }
            if idx < tables.len() {
                let name = tables[idx].0.clone();
                tables.set(idx, (name, file.path.clone()));
                proof {
                    assert(tables@ == old_tables.update(idx as int, (name, file.path)));
                    assert forall|i: int, j: int| 0 <= i < j < tables@.len() implies (
                    #[trigger] tables@[i]).0@ != (#[trigger] tables@[j]).0@ by {
                        assert(tables@[i].0@ == old_tables[i].0@);
                        assert(tables@[j].0@ == old_tables[j].0@);
                    }
                    lemma_entries_map(tables@);
                    let m1 = entries_map(tables@);
                    let m0 = entries_map(old_tables).insert(file.name@, file.path@);
                    assert(old_tables[idx as int].0@ == file.name@);
                    assert forall|k: Seq<char>| #[trigger] m1.dom().contains(k) <==> m0.dom().contains(k) by {
                        if m1.dom().contains(k) {
                            let i = choose|i: int| 0 <= i < tables@.len() && (#[trigger] tables@[i]).0@ == k;
                            assert(old_tables[i].0@ == k);
                        }
                        if m0.dom().contains(k) && k != file.name@ {
                            let i = choose|i: int| 0 <= i < old_tables.len() && (#[trigger] old_tables[i]).0@ == k;
                            assert(tables@[i].0@ == k);
                        }
                        if k == file.name@ {
                            assert(tables@[idx as int].0@ == k);
                        }
                    }
                    assert forall|k: Seq<char>| #[trigger] m1.dom().contains(k) implies m1[k] == m0[k] by {
                        let i = choose|i: int| 0 <= i < tables@.len() && (#[trigger] tables@[i]).0@ == k;
                        if i != idx {
                            assert(old_tables[i] == tables@[i]);
                        }
                    }
                    assert(m1 =~= m0);
                }
            } else {
                tables.push((file.name.clone(), file.path.clone()));
                assert(tables@.drop_last() =~= old_tables);
            }
            f = f + 1;
        }
        assert(files@.subrange(0, files@.len() as int) =~= files@);
        let corpus_id = short_hash_hex(data.as_slice());
        Corpus { corpus_id, tables }
    }

    /// The names of the corpus's tables, each once, in file order.
    pub fn table_names(&self) -> (r: Vec<String>)
        ensures
            forall|k: Seq<char>|
                self.table_map().dom().contains(k) <==> exists|i: int|
                    0 <= i < r.len() && (#[trigger] r@[i])@ == k,
            forall|i: int, j: int| 0 <= i < j < r.len() ==> (#[trigger] r@[i])@ != (#[trigger] r@[j])@,
    {
        proof {
            use_type_invariant(self);
            lemma_entries_map(self.tables@);
        }
        let mut r: Vec<String> = Vec::new();
        let mut i: usize = 0;
        while i < self.tables.len()
            invariant
                i <= self.tables.len(),
                r.len() == i,
                forall|j: int| 0 <= j < i ==> (#[trigger] r@[j])@ == self.tables@[j].0@,
            decreases self.tables.len() - i,
        {
            r.push(self.tables[i].0.clone());
            i = i + 1;
        }
        proof {
            use_type_invariant(self);
            assert forall|k: Seq<char>|
                self.table_map().dom().contains(k) implies exists|i: int|
                    0 <= i < r.len() && (#[trigger] r@[i])@ == k by {
                let i = choose|i: int| 0 <= i < self.tables@.len() && (#[trigger] self.tables@[i]).0@ == k;
                assert(r@[i]@ == k);
            }
            assert forall|i: int, j: int| 0 <= i < j < r.len() implies (#[trigger] r@[i])@ != (
            #[trigger] r@[j])@ by {
                assert(self.tables@[i].0@ != self.tables@[j].0@);
            }
        }
        r
    }

    /// Whether the corpus has a table of this name.
    pub fn has_table(&self, table: &str) -> (r: bool)
        ensures
            r == self.table_map().dom().contains(table@),
    {
        proof {
            use_type_invariant(self);
            lemma_entries_map(self.tables@);
        }
        let mut i: usize = 0;
        while i < self.tables.len()
            invariant
                i <= self.tables.len(),
                forall|j: int| 0 <= j < i ==> (#[trigger] self.tables@[j]).0@ != table@,
            decreases self.tables.len() - i,
        {
            if str_eq(self.tables[i].0.as_str(), table) {
                proof {
                    use_type_invariant(self);
                    lemma_entries_map(self.tables@);
                    assert(self.tables@[i as int].0@ == table@);
                }
                return true;
            }
            i = i + 1;
        }
        false
    }

    /// Where the table of this name is kept, if the corpus has it.
    pub fn table_path(&self, table: &str) -> (r: Option<String>)
        ensures
            match r {
                Some(p) => self.table_map().dom().contains(table@) && self.table_map()[table@]
                    == p@,
                None => !self.table_map().dom().contains(table@),
            },
    {
        proof {
            use_type_invariant(self);
            lemma_entries_map(self.tables@);
        }
        let mut i: usize = 0;
        while i < self.tables.len()
            invariant
                i <= self.tables.len(),
                forall|j: int| 0 <= j < i ==> (#[trigger] self.tables@[j]).0@ != table@,
            decreases self.tables.len() - i,
        {
            if str_eq(self.tables[i].0.as_str(), table) {
                proof {
                    use_type_invariant(self);
                    lemma_entries_map(self.tables@);
                    assert(self.tables@[i as int].0@ == table@);
                }
                return Some(self.tables[i].1.clone());
            }
            i = i + 1;
        }
        None
    }
}

impl Clone for Corpus {
    /// A copy of the corpus: the same id and the same tables.
    fn clone(&self) -> (c: Corpus)
        ensures
            c.spec_corpus_id() == self.spec_corpus_id(),
            c.table_map() == self.table_map(),
    {
        proof {
            use_type_invariant(self);
        }
        let mut tables: Vec<(String, String)> = Vec::new();
        let mut i: usize = 0;
        while i < self.tables.len()
            invariant
                i <= self.tables.len(),
                unique_names(self.tables@),
                tables.len() == i,
                forall|j: int|
                    0 <= j < i ==> (#[trigger] tables@[j]).0@ == self.tables@[j].0@ && tables@[j].1@
                        == self.tables@[j].1@,
            decreases self.tables.len() - i,
        {
            let name = self.tables[i].0.clone();
            let path = self.tables[i].1.clone();
            tables.push((name, path));
            i = i + 1;
        }
        proof {
            assert forall|a: int, b: int| 0 <= a < b < tables@.len() implies (#[trigger] tables@[a]).0@
                != (#[trigger] tables@[b]).0@ by {
                assert(self.tables@[a].0@ != self.tables@[b].0@);
            }
            assert(entries_map(tables@) == entries_map(self.tables@)) by {
                lemma_entries_map(tables@);
                lemma_entries_map(self.tables@);
                assert forall|k: Seq<char>| #[trigger] entries_map(tables@).dom().contains(k)
                    == entries_map(self.tables@).dom().contains(k) by {
                    if entries_map(tables@).dom().contains(k) {
                        let j = choose|j: int| 0 <= j < tables@.len() && (#[trigger] tables@[j]).0@ == k;
                        assert(self.tables@[j].0@ == k);
                    }
                    if entries_map(self.tables@).dom().contains(k) {
                        let j = choose|j: int| 0 <= j < self.tables@.len() && (#[trigger] self.tables@[j]).0@ == k;
                        assert(tables@[j].0@ == k);
                    }
                }
                assert forall|k: Seq<char>| #[trigger] entries_map(tables@).dom().contains(k) implies entries_map(tables@)[k]
                    == entries_map(self.tables@)[k] by {
                    let j = choose|j: int| 0 <= j < tables@.len() && (#[trigger] tables@[j]).0@ == k;
                    assert(entries_map(tables@)[tables@[j].0@] == tables@[j].1@);
                    assert(entries_map(self.tables@)[self.tables@[j].0@] == self.tables@[j].1@);
                }
                assert(entries_map(tables@) =~= entries_map(self.tables@));
            }
        }
        Corpus { corpus_id: self.corpus_id.clone(), tables }
    }
}

/// The name of a table's file in the corpus directory.
pub open spec fn file_name(f: TableFile) -> Seq<char> {
    f.name@ + ".parquet"@
}

/// Whether the files come in the order of their names (the order in which
/// the corpus reads, and hashes, them).
pub open spec fn sorted_by_file_name(s: Seq<TableFile>) -> bool {
    forall|i: int, j: int| 0 <= i < j < s.len() ==> !text_lt(file_name(s[j]), file_name(s[i]))
}

/// A file's table name.
pub open spec fn table_name_of() -> spec_fn(TableFile) -> Seq<char> {
    |f: TableFile| f.name@
}

/// Whether no two files share a table name.
pub open spec fn distinct_names(s: Seq<TableFile>) -> bool {
    keys_distinct(s, table_name_of())
}

fn file_name_of(f: &TableFile) -> (r: String)
    ensures
        r@ == file_name(*f),
{
    let mut r = f.name.clone();
    r.append(".parquet");
    r
}

/// Orders the files of a corpus directory by file name, keeping every one.
pub fn sort_table_files(v: Vec<TableFile>) -> (r: Vec<TableFile>)
    ensures
        sorted_by_file_name(r@),
        r@.to_multiset() == v@.to_multiset(),
{
    broadcast use vstd::seq_lib::group_to_multiset_ensures, vstd::multiset::group_multiset_axioms;

    let ghost orig = v@;
    let mut v = v;
    let mut r: Vec<TableFile> = Vec::new();
    assert(r@.to_multiset() =~= vstd::multiset::Multiset::<TableFile>::empty()) by {
        assert(r@.to_multiset().len() == 0);
    }
    while v.len() > 0
        invariant
            sorted_by_file_name(r@),
            r@.to_multiset().add(v@.to_multiset()) == orig.to_multiset(),
        decreases v.len(),
    {
        let ghost before_v = v@;
        let x = v.pop().unwrap();
        assert(before_v =~= v@.push(x));
        let kx = file_name_of(&x);
        let mut p = r.len();
        while p > 0 && text_less(kx.as_str(), file_name_of(&r[p - 1]).as_str())
            invariant
                p <= r.len(),
                kx@ == file_name(x),
                forall|j: int| p <= j < r.len() ==> text_lt(file_name(x), file_name(#[trigger] r@[j])),
            decreases p,
        {
            p = p - 1;
        }
        let ghost old_r = r@;
        r.insert(p, x);
        proof {
            assert(r@ == old_r.insert(p as int, x));
            vstd::seq_lib::to_multiset_insert(old_r, p as int, x);
            vstd::seq_lib::to_multiset_build(v@, x);
            assert(r@.to_multiset().add(v@.to_multiset()) =~= old_r.to_multiset().add(
                before_v.to_multiset(),
            ));
            assert forall|a: int, b: int| 0 <= a < b < r@.len() implies !text_lt(
                file_name(r@[b]),
                file_name(r@[a]),
            ) by {
                if a < p && b == p {
                    lemma_text_lt_total(file_name(x), file_name(old_r[p - 1]));
                    if a < p - 1 {
                        lemma_text_lt_total(file_name(old_r[a]), file_name(old_r[p - 1]));
                        if text_lt(file_name(x), file_name(old_r[a])) {
                            lemma_text_lt_transitive(
                                file_name(x),
                                file_name(old_r[a]),
                                file_name(old_r[p - 1]),
                            );
                        }
                    }
                } else if a == p && b > p {
                    lemma_text_lt_total(file_name(x), file_name(old_r[b - 1]));
                } else if a < p && b > p {
                    assert(!text_lt(file_name(old_r[b - 1]), file_name(old_r[a])));
                } else if a > p {
                    assert(!text_lt(file_name(old_r[b - 1]), file_name(old_r[a - 1])));
                }
            }
        }
    }
    assert(v@ =~= Seq::<TableFile>::empty());
    assert(r@.to_multiset() =~= r@.to_multiset().add(v@.to_multiset()));
    r
}

proof fn lemma_file_names_differ(f: TableFile, g: TableFile)
    requires
        f.name@ != g.name@,
    ensures
        file_name(f) != file_name(g),
{
    if file_name(f) == file_name(g) {
        assert(file_name(f).len() == f.name@.len() + ".parquet"@.len());
        assert(file_name(g).len() == g.name@.len() + ".parquet"@.len());
        assert(f.name@.len() == g.name@.len());
        assert(f.name@ =~= file_name(f).subrange(0, f.name@.len() as int));
        assert(g.name@ =~= file_name(g).subrange(0, g.name@.len() as int));
    }
}

proof fn lemma_sorted_files_equal(a: Seq<TableFile>, b: Seq<TableFile>)
    requires
        sorted_by_file_name(a),
        sorted_by_file_name(b),
        distinct_names(a),
        distinct_names(b),
        a.to_multiset() == b.to_multiset(),
    ensures
        a == b,
    decreases a.len(),
{
    broadcast use vstd::seq_lib::group_to_multiset_ensures, vstd::multiset::group_multiset_axioms;

    if a.len() == 0 {
        assert(b.to_multiset().len() == 0);
        assert(a =~= b);
    } else {
        assert(a.to_multiset().len() == a.len());
        assert(b.to_multiset().len() == b.len());
        assert(b.len() == a.len());
        assert(a.to_multiset().count(a[0]) > 0) by {
            assert(a.contains(a[0]));
        }
        assert(b.to_multiset().count(a[0]) > 0);
        assert(b.contains(a[0]));
        let j = choose|j: int| 0 <= j < b.len() && b[j] == a[0];
        assert(a.contains(b[0])) by {
            assert(b.contains(b[0]));
            assert(b.to_multiset().count(b[0]) > 0);
            assert(a.to_multiset().count(b[0]) > 0);
        }
        let i = choose|i: int| 0 <= i < a.len() && a[i] == b[0];
        if j > 0 {
            // b[0] comes before a[0] in b, and after it in a
            lemma_file_names_differ(b[0], b[j]);
            lemma_text_lt_total(file_name(b[0]), file_name(b[j]));
            assert(text_lt(file_name(b[0]), file_name(a[0])));
            if i == 0 {
                lemma_text_lt_irreflexive(file_name(a[0]));
            } else {
                lemma_file_names_differ(a[0], a[i]);
                lemma_text_lt_total(file_name(a[0]), file_name(a[i]));
            }
        }
        assert(a[0] == b[0]);
        let a1 = a.drop_first();
        let b1 = b.drop_first();
        assert(a =~= seq![a[0]] + a1);
        assert(b =~= seq![b[0]] + b1);
        assert(a1.to_multiset() =~= a.to_multiset().remove(a[0])) by {
            vstd::seq_lib::to_multiset_remove(a, 0);
            assert(a.remove(0) =~= a1);
        }
        assert(b1.to_multiset() =~= b.to_multiset().remove(b[0])) by {
            vstd::seq_lib::to_multiset_remove(b, 0);
            assert(b.remove(0) =~= b1);
        }
        assert forall|x: int, y: int| 0 <= x < y < a1.len() implies !text_lt(
            file_name(a1[y]),
            file_name(a1[x]),
        ) by {
            assert(a1[x] == a[x + 1] && a1[y] == a[y + 1]);
        }
        assert forall|x: int, y: int| 0 <= x < y < b1.len() implies !text_lt(
            file_name(b1[y]),
            file_name(b1[x]),
        ) by {
            assert(b1[x] == b[x + 1] && b1[y] == b[y + 1]);
        }
        assert forall|x: int, y: int| 0 <= x < y < a1.len() implies (#[trigger] a1[x]).name@
            != (#[trigger] a1[y]).name@ by {
            assert(a1[x] == a[x + 1] && a1[y] == a[y + 1]);
        }
        assert forall|x: int, y: int| 0 <= x < y < b1.len() implies (#[trigger] b1[x]).name@
            != (#[trigger] b1[y]).name@ by {
            assert(b1[x] == b[x + 1] && b1[y] == b[y + 1]);
        }
        lemma_sorted_files_equal(a1, b1);
        assert(a =~= b);
    }
}

/// The corpus id does not depend on the order in which the directory
/// listed its files: two listings of the same files (no two of one name),
/// each put in file-name order, are the same sequence, so they hash to the
/// same corpus id and give the same tables.
pub proof fn lemma_corpus_id_ignores_listing_order(
    a: Seq<TableFile>,
    b: Seq<TableFile>,
    sorted_a: Seq<TableFile>,
    sorted_b: Seq<TableFile>,
)
    requires
        a.to_multiset() == b.to_multiset(),
        distinct_names(a),
        sorted_by_file_name(sorted_a),
        sorted_by_file_name(sorted_b),
        sorted_a.to_multiset() == a.to_multiset(),
        sorted_b.to_multiset() == b.to_multiset(),
    ensures
        sorted_a == sorted_b,
        short_id(all_bytes(sorted_a)) == short_id(all_bytes(sorted_b)),
        table_paths(sorted_a) == table_paths(sorted_b),
{
    lemma_permutation_keeps_keys_distinct(a, sorted_a, table_name_of());
    lemma_permutation_keeps_keys_distinct(a, sorted_b, table_name_of());
    lemma_sorted_files_equal(sorted_a, sorted_b);
}

proof fn lemma_all_bytes_prefix(files: Seq<TableFile>, n: int)
    requires
        0 <= n <= files.len(),
    ensures
        all_bytes(files.subrange(0, n)).len() <= all_bytes(files).len(),
    decreases files.len() - n,
{
    if n < files.len() {
        lemma_all_bytes_prefix(files, n + 1);
        assert(files.subrange(0, n + 1).drop_last() =~= files.subrange(0, n));
    } else {
        assert(files.subrange(0, n) =~= files);
    }
}

} // verus!
