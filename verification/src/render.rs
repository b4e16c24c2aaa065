//! The mathematical model of rendering: what the output string of a render
//! call is, as a function of the namespace and the populated skeletons.

use vstd::prelude::*;
use crate::skeleton::Table;

verus! {

/// The double-quoted, dot-joined qualified table name: `"ns"."name"` when a
/// namespace is configured, bare `"name"` otherwise.
pub open spec fn qualified_of(ns: Option<Seq<char>>, name: Seq<char>) -> Seq<char> {
    match ns {
        Some(n) => "\""@ + n + "\".\""@ + name + "\""@,
        None => "\""@ + name + "\""@,
    }
}

/// Verbatim concatenation of the fragments, in order; no separator is
/// inserted beyond what each fragment already carries.
pub open spec fn frags_of(items: Seq<Seq<char>>) -> Seq<char>
    decreases items.len(),
{
    if items.len() == 0 {
        Seq::empty()
    } else {
        frags_of(items.drop_last()) + items.last()
    }
}

/// One statement: `create table <qualified name> (<fragments>)`.
pub open spec fn stmt_of(ns: Option<Seq<char>>, t: Table) -> Seq<char> {
    "create table "@ + qualified_of(ns, t.name@) + " ("@ + frags_of(t.frags()) + ")"@
}

/// The whole rendered output: one statement per populated skeleton, in
/// order, concatenated with no separator between statements.
pub open spec fn output_of(ns: Option<Seq<char>>, tables: Seq<Table>) -> Seq<char>
    decreases tables.len(),
{
    if tables.len() == 0 {
        Seq::empty()
    } else {
        output_of(ns, tables.drop_last()) + stmt_of(ns, tables.last())
    }
}

/// Rendering zero tables yields the empty string, whatever the namespace.
pub proof fn lemma_output_of_empty(ns: Option<Seq<char>>)
    ensures
        output_of(ns, Seq::<Table>::empty()) == Seq::<char>::empty(),
{
}

/// The output of a single table is exactly that table's statement.
pub proof fn lemma_output_of_singleton(ns: Option<Seq<char>>, t: Table)
    ensures
        output_of(ns, seq![t]) == stmt_of(ns, t),
{
    let s = seq![t];
    assert(s.last() == t);
    assert(s.drop_last() =~= Seq::<Table>::empty());
    assert(output_of(ns, Seq::<Table>::empty()) == Seq::<char>::empty());
    assert(output_of(ns, s) == Seq::<char>::empty() + stmt_of(ns, t));
    assert(Seq::<char>::empty() + stmt_of(ns, t) =~= stmt_of(ns, t));
}

/// The output over a table list splits at any point into the output over the
/// prefix followed by the output over the suffix.
pub proof fn lemma_output_of_split(ns: Option<Seq<char>>, tables: Seq<Table>, k: int)
    requires
        0 <= k <= tables.len(),
    ensures
        output_of(ns, tables) == output_of(ns, tables.take(k)) + output_of(ns, tables.skip(k)),
    decreases tables.len(),
{
    if k == tables.len() {
        assert(tables.take(k) =~= tables);
        assert(tables.skip(k) =~= Seq::<Table>::empty());
        assert(output_of(ns, tables) =~= output_of(ns, tables.take(k)) + output_of(
            ns,
            tables.skip(k),
        ));
    } else {
        lemma_output_of_split(ns, tables.drop_last(), k);
        assert(tables.drop_last().take(k) =~= tables.take(k));
        assert(tables.skip(k).drop_last() =~= tables.drop_last().skip(k));
        assert(tables.skip(k).last() == tables.last());
        assert(output_of(ns, tables.skip(k)) == output_of(ns, tables.drop_last().skip(k))
            + stmt_of(ns, tables.last()));
        assert(output_of(ns, tables) =~= output_of(ns, tables.take(k)) + output_of(
            ns,
            tables.skip(k),
        ));
    }
}

/// Skeleton isolation: a table's contribution to the rendered output is
/// exactly its own statement — a function of that table alone — standing
/// between the other tables' contributions. Fragments appended to one
/// skeleton can therefore never appear inside another table's statement.
pub proof fn lemma_skeleton_isolation(ns: Option<Seq<char>>, tables: Seq<Table>, i: int)
    requires
        0 <= i < tables.len(),
    ensures
        output_of(ns, tables) == output_of(ns, tables.take(i)) + stmt_of(ns, tables[i])
            + output_of(ns, tables.skip(i + 1)),
{
    lemma_output_of_split(ns, tables, i);
    let rest = tables.skip(i);
    lemma_output_of_split(ns, rest, 1);
    assert(rest.take(1) =~= seq![tables[i]]);
    lemma_output_of_singleton(ns, tables[i]);
    assert(rest.skip(1) =~= tables.skip(i + 1));
    assert(output_of(ns, tables) =~= output_of(ns, tables.take(i)) + stmt_of(ns, tables[i])
        + output_of(ns, tables.skip(i + 1)));
}

/// Registration order determines output order: in the rendered output, the
/// whole statement of an earlier table stands strictly before the whole
/// statement of a later one, with the remaining tables' statements around
/// them.
pub proof fn lemma_registration_order(ns: Option<Seq<char>>, tables: Seq<Table>, i: int, j: int)
    requires
        0 <= i < j < tables.len(),
    ensures
        output_of(ns, tables) == output_of(ns, tables.take(i)) + stmt_of(ns, tables[i])
            + output_of(ns, tables.subrange(i + 1, j)) + stmt_of(ns, tables[j])
            + output_of(ns, tables.skip(j + 1)),
{
    lemma_skeleton_isolation(ns, tables, i);
    let tail = tables.skip(i + 1);
    lemma_skeleton_isolation(ns, tail, j - i - 1);
    assert(tail[j - i - 1] == tables[j]);
    assert(tail.take(j - i - 1) =~= tables.subrange(i + 1, j));
    assert(tail.skip(j - i) =~= tables.skip(j + 1));
    assert(output_of(ns, tables) =~= output_of(ns, tables.take(i)) + stmt_of(ns, tables[i])
        + output_of(ns, tables.subrange(i + 1, j)) + stmt_of(ns, tables[j]) + output_of(
        ns,
        tables.skip(j + 1),
    ));
}

} // verus!
