//! What holds of the tables that are reported as classes of Lua files.

use vstd::prelude::*;

use crate::extract::classes_in;
use crate::lang::lua::{
    is_qualified, last_line, table_class, table_from, tables, tables_with_methods, with_field,
    with_fields, with_notes, Functions, Methods, Notes, Table,
};
use crate::lists::group_lists;
use crate::tree::{group_tree, Node};
use crate::types::{Class, Field, Function, Language};
use crate::walk::{all_have, gathered, lemma_gathered, Walker};

verus! {

broadcast use {group_tree, group_lists};

/// The methods of those of the first `k` functions that are members of the
/// table `name`, in order.
pub open spec fn members_of(
    functions: Seq<(Seq<char>, Function, Seq<Field>)>,
    name: Seq<char>,
    k: nat,
) -> Seq<Function>
    decreases k,
{
    if k == 0 {
        Seq::empty()
    } else if functions[k - 1].0 == name {
        members_of(functions, name, (k - 1) as nat) + seq![functions[k - 1].1]
    } else {
        members_of(functions, name, (k - 1) as nat)
    }
}

/// Whether no two fields have one name.
pub open spec fn field_names_differ(fields: Seq<Field>) -> bool {
    forall|i: int, j: int|
        0 <= i < j < fields.len() ==> (#[trigger] fields[i]).name != (#[trigger] fields[j]).name
}

proof fn lemma_with_field(fields: Seq<Field>, field: Field)
    requires
        field_names_differ(fields),
    ensures
        field_names_differ(with_field(fields, field)),
{
    let after = with_field(fields, field);
    assert forall|i: int, j: int| 0 <= i < j < after.len() implies (#[trigger] after[i]).name != (
    #[trigger] after[j]).name by {
        assert(after[i] == fields[i]);
        if j < fields.len() {
            assert(after[j] == fields[j]);
        }
    }
}

proof fn lemma_with_fields(fields: Seq<Field>, more: Seq<Field>, k: nat)
    requires
        field_names_differ(fields),
    ensures
        field_names_differ(with_fields(fields, more, k)),
    decreases k,
{
    if k > 0 {
        lemma_with_fields(fields, more, (k - 1) as nat);
        lemma_with_field(with_fields(fields, more, (k - 1) as nat), more[k - 1]);
    }
}

/// What holds of the tables after the first `k` functions.
spec fn grouped(
    functions: Seq<(Seq<char>, Function, Seq<Field>)>,
    k: nat,
    all: Seq<Table>,
) -> bool {
    &&& forall|i: int, j: int|
        0 <= i < j < all.len() ==> (#[trigger] all[i]).name != (#[trigger] all[j]).name
    &&& forall|i: int|
        0 <= i < all.len() ==> (#[trigger] all[i]).methods == members_of(functions, all[i].name, k)
            && all[i].methods.len() > 0 && field_names_differ(all[i].fields)
    &&& forall|g: int|
        0 <= g < k ==> exists|i: int|
            0 <= i < all.len() && (#[trigger] all[i]).name == (#[trigger] functions[g]).0
}

pub(crate) proof fn lemma_table_from(all: Seq<Table>, name: Seq<char>, i: int)
    requires
        0 <= i,
    ensures
        table_from(all, name, i) matches Some(k) ==> i <= k < all.len() && all[k].name == name,
        table_from(all, name, i) is None ==> forall|j: int|
            i <= j < all.len() ==> (#[trigger] all[j]).name != name,
    decreases all.len() - i,
{
    if i < all.len() {
        lemma_table_from(all, name, i + 1);
    }
}

proof fn lemma_no_members(
    functions: Seq<(Seq<char>, Function, Seq<Field>)>,
    name: Seq<char>,
    k: nat,
)
    requires
        forall|g: int| 0 <= g < k ==> (#[trigger] functions[g]).0 != name,
    ensures
        members_of(functions, name, k) == Seq::<Function>::empty(),
    decreases k,
{
    if k > 0 {
        lemma_no_members(functions, name, (k - 1) as nat);
        assert(functions[k - 1].0 != name);
    }
}

proof fn lemma_grouped(functions: Seq<(Seq<char>, Function, Seq<Field>)>, k: nat)
    requires
        k <= functions.len(),
    ensures
        grouped(functions, k, tables_with_methods(functions, k)),
    decreases k,
{
    if k > 0 {
        let j = (k - 1) as nat;
        lemma_grouped(functions, j);
        let before = tables_with_methods(functions, j);
        let after = tables_with_methods(functions, k);
        let (name, method, fields) = functions[k - 1];
        lemma_table_from(before, name, 0);
        match table_from(before, name, 0) {
            Some(x) => {
                lemma_with_fields(before[x].fields, fields, fields.len());
                assert forall|a: int, b: int| 0 <= a < b < after.len() implies (
                #[trigger] after[a]).name != (#[trigger] after[b]).name by {
                    assert(after[a].name == before[a].name);
                    assert(after[b].name == before[b].name);
                }
                assert forall|i: int| 0 <= i < after.len() implies (#[trigger] after[i]).methods
                    == members_of(functions, after[i].name, k) && after[i].methods.len() > 0
                    && field_names_differ(after[i].fields) by {
                    assert(before[i].methods == members_of(functions, before[i].name, j));
                    if i < x {
                        assert(before[i].name != before[x].name);
                    } else if x < i {
                        assert(before[x].name != before[i].name);
                    }
                }
                assert forall|g: int| 0 <= g < k implies exists|i: int|
                    0 <= i < after.len() && (#[trigger] after[i]).name == (
                    #[trigger] functions[g]).0 by {
                    if g < j {
                        let i = choose|i: int|
                            0 <= i < before.len() && (#[trigger] before[i]).name
                                == functions[g].0;
                        assert(after[i].name == functions[g].0);
                    } else {
                        assert(after[x].name == name);
                    }
                }
            },
            None => {
                assert forall|g: int| 0 <= g < j implies (#[trigger] functions[g]).0 != name by {
                    let i = choose|i: int|
                        0 <= i < before.len() && (#[trigger] before[i]).name == functions[g].0;
                    assert(before[i].name != name);
                }
                lemma_no_members(functions, name, j);
                lemma_with_fields(Seq::empty(), fields, fields.len());
                let last = before.len() as int;
                assert(after[last].name == name);
                assert(after[last].methods =~= seq![method]);
                assert forall|a: int, b: int| 0 <= a < b < after.len() implies (
                #[trigger] after[a]).name != (#[trigger] after[b]).name by {
                    assert(after[a] == before[a]);
                    if b < last {
                        assert(after[b] == before[b]);
                    }
                }
                assert forall|i: int| 0 <= i < after.len() implies (#[trigger] after[i]).methods
                    == members_of(functions, after[i].name, k) && after[i].methods.len() > 0
                    && field_names_differ(after[i].fields) by {
                    if i < last {
                        assert(after[i] == before[i]);
                    }
                }
                assert forall|g: int| 0 <= g < k implies exists|i: int|
                    0 <= i < after.len() && (#[trigger] after[i]).name == (
                    #[trigger] functions[g]).0 by {
                    if g < j {
                        let i = choose|i: int|
                            0 <= i < before.len() && (#[trigger] before[i]).name
                                == functions[g].0;
                        assert(after[i].name == functions[g].0);
                    }
                }
            },
        }
    }
}

proof fn lemma_noted(
    functions: Seq<(Seq<char>, Function, Seq<Field>)>,
    all: Seq<Table>,
    notes: Seq<(Seq<char>, Option<u32>, u32, Option<Field>)>,
    k: nat,
)
    requires
        grouped(functions, functions.len(), all),
    ensures
        grouped(functions, functions.len(), with_notes(all, notes, k)),
    decreases k,
{
    if k > 0 {
        lemma_noted(functions, all, notes, (k - 1) as nat);
        let before = with_notes(all, notes, (k - 1) as nat);
        let after = with_notes(all, notes, k);
        let note = notes[k - 1];
        lemma_table_from(before, note.0, 0);
        match table_from(before, note.0, 0) {
            Some(x) => {
                if note.3 is Some {
                    lemma_with_field(before[x].fields, note.3->0);
                }
                assert forall|a: int, b: int| 0 <= a < b < after.len() implies (
                #[trigger] after[a]).name != (#[trigger] after[b]).name by {
                    assert(after[a].name == before[a].name);
                    assert(after[b].name == before[b].name);
                }
                assert forall|i: int| 0 <= i < after.len() implies (#[trigger] after[i]).methods
                    == members_of(functions, after[i].name, functions.len())
                    && after[i].methods.len() > 0 && field_names_differ(after[i].fields) by {
                    assert(before[i].methods == members_of(
                        functions,
                        before[i].name,
                        functions.len(),
                    ));
                }
                assert forall|g: int| 0 <= g < functions.len() implies exists|i: int|
                    0 <= i < after.len() && (#[trigger] after[i]).name == (
                    #[trigger] functions[g]).0 by {
                    let i = choose|i: int|
                        0 <= i < before.len() && (#[trigger] before[i]).name == functions[g].0;
                    assert(after[i].name == functions[g].0);
                }
            },
            None => {},
        }
    }
}

proof fn lemma_tables(root: Node<'_>, luau: bool)
    ensures
        grouped(
            gathered(&Methods { luau }, root),
            gathered(&Methods { luau }, root).len(),
            tables(root, luau),
        ),
{
    let functions = gathered(&Methods { luau }, root);
    let notes = gathered(&Notes, root);
    lemma_grouped(functions, functions.len());
    lemma_noted(
        functions,
        tables_with_methods(functions, functions.len()),
        notes,
        notes.len(),
    );
}

/// The classes of a Lua or Luau file.
pub open spec fn table_classes(root: Node<'_>, luau: bool) -> Seq<Class> {
    if luau {
        classes_in(root, Language::Luau)
    } else {
        classes_in(root, Language::Lua)
    }
}

/// A table is a class where functions are declared as its members: the methods
/// of the class are exactly those functions, in order, and there is at least
/// one. No two classes have one name, and no two fields of a class have.
pub proof fn classes_are_tables_with_members(root: Node<'_>, luau: bool)
    ensures
        ({
            let classes = table_classes(root, luau);
            let functions = gathered(&Methods { luau }, root);
            &&& forall|i: int|
                0 <= i < classes.len() ==> (#[trigger] classes[i]).methods == members_of(
                    functions,
                    classes[i].name,
                    functions.len(),
                ) && classes[i].methods.len() > 0 && classes[i].kind == Some("table"@)
                    && field_names_differ(classes[i].fields)
            &&& forall|i: int, j: int|
                0 <= i < j < classes.len() ==> (#[trigger] classes[i]).name != (
                #[trigger] classes[j]).name
            &&& forall|g: int|
                0 <= g < functions.len() ==> exists|i: int|
                    0 <= i < classes.len() && (#[trigger] classes[i]).name == (
                    #[trigger] functions[g]).0
        }),
{
    lemma_tables(root, luau);
    let classes = table_classes(root, luau);
    let all = tables(root, luau);
    let functions = gathered(&Methods { luau }, root);
    assert forall|i: int| 0 <= i < classes.len() implies (#[trigger] classes[i]).methods
        == members_of(functions, classes[i].name, functions.len()) && classes[i].methods.len() > 0
        && classes[i].kind == Some("table"@) && field_names_differ(classes[i].fields) by {
        assert(classes[i] == table_class(all[i]));
    }
    assert forall|i: int, j: int| 0 <= i < j < classes.len() implies (#[trigger] classes[i]).name
        != (#[trigger] classes[j]).name by {
        assert(classes[i] == table_class(all[i]));
        assert(classes[j] == table_class(all[j]));
    }
    assert forall|g: int| 0 <= g < functions.len() implies exists|i: int|
        0 <= i < classes.len() && (#[trigger] classes[i]).name == (#[trigger] functions[g]).0 by {
        let i = choose|i: int|
            0 <= i < all.len() && (#[trigger] all[i]).name == functions[g].0;
        assert(classes[i] == table_class(all[i]));
    }
}

/// Whether a function is marked as a member of a table.
pub open spec fn is_table_member(f: Function) -> bool {
    f.is_method && (f.decorators == seq!["method"@] || f.decorators == seq!["static"@])
}

/// The members of tables are methods, marked as called on the table or as
/// static.
pub proof fn members_are_methods<'a>(root: Node<'a>, luau: bool)
    ensures
        all_have(
            gathered(&Methods { luau }, root),
            |x: (Seq<char>, Function, Seq<Field>)| is_table_member(x.1) && x.0.len() > 0,
        ),
{
    lemma_gathered(
        &Methods { luau },
        root,
        |x: (Seq<char>, Function, Seq<Field>)| is_table_member(x.1) && x.0.len() > 0,
    );
}

/// A function that is declared as a member of a table is not reported among the
/// functions of the file.
pub proof fn members_are_no_functions(c: Node<'_>, luau: bool)
    requires
        c.isa("function_declaration"),
        is_qualified(c),
    ensures
        (Functions { luau }).yields(c).len() == 0,
        (Functions { luau }).enters(c) is None,
{
}

/// A class ends no earlier than each of its methods.
pub proof fn classes_span_their_methods(root: Node<'_>, luau: bool, i: int, m: int)
    requires
        0 <= i < table_classes(root, luau).len(),
        0 <= m < table_classes(root, luau)[i].methods.len(),
    ensures
        table_classes(root, luau)[i].methods[m].line_end <= table_classes(root, luau)[i].line_end,
{
    let t = tables(root, luau)[i];
    assert(table_classes(root, luau)[i] == table_class(t));
    lemma_last_line(t.methods, t.methods.len(), m);
}

proof fn lemma_last_line(methods: Seq<Function>, k: nat, m: int)
    requires
        0 <= m < k,
    ensures
        methods[m].line_end <= last_line(methods, k),
    decreases k,
{
    if m < k - 1 {
        lemma_last_line(methods, (k - 1) as nat, m);
    }
}

} // verus!
