//! Where the tables of Lua files are reported, and with which fields.

use vstd::prelude::*;

use crate::lang::lua::{
    first_line, last_line, table_class, table_from, tables, tables_with_methods, with_field,
    with_fields, with_notes, LocalNotes, Methods, Notes, Table, Targets, Values,
};
use crate::laws::listing::{
    closed_by, lemma_picked_blocks, lemma_reported_blocks, reports_blocks, reports_kid_blocks,
};
use crate::laws::lua::{lemma_table_from, table_classes};
use crate::laws::reported_functions::word_at;
use crate::laws::reported_types::lua_open;
use crate::lists::group_lists;
use crate::names::is_constant_name;
use crate::tree::{group_tree, Node};
use crate::types::{Field, Function};
use crate::walk::{gathered, last_found, Walker};

verus! {

broadcast use {group_tree, group_lists};

/// What an assignment says of a table: its name, the line where it is made, the last
/// line, and a field of it.
pub type Note = (Seq<char>, Option<u32>, u32, Option<Field>);

/// Whether a field is what `T.x = value` of Lua gives to a table.
pub open spec fn is_table_field(f: Field, c: Node<'_>, name: Seq<char>, value: Seq<char>) -> bool {
    &&& f.name == name
    &&& f.line_number == c.top()
    &&& f.line_end == c.bottom()
    &&& f.field_type is None
    &&& f.default_value == Some(value)
    &&& f.is_static
    &&& f.is_constant == is_constant_name(name)
    &&& f.visibility is None
}

/// Whether `s` is what an assignment of Lua inside of `statement` says: that a table is
/// made, or that it gets a field. Fields count only at the top of the file.
pub open spec fn is_note(s: Seq<Note>, c: Node<'_>, statement: Node<'_>) -> bool {
    match (
        last_found(&Targets { luau: false }, c),
        last_found(&Values { luau: false }, c),
    ) {
        (Some(targets), Some(values)) => match (
            targets.named_from(0, 0),
            values.named_from(0, 0),
        ) {
            (Some(left), Some(right)) => if left.isa("identifier") {
                if right.isa("table_constructor") {
                    s == seq![(left.txt(), Some(c.top()), c.bottom(), None::<Field>)]
                } else {
                    s.len() == 0
                }
            } else if left.isa("dot_index_expression") && left.at("table") is Some && left.at(
                "field",
            ) is Some {
                let name = word_at(left, "field");
                &&& s.len() == 1
                &&& s[0].0 == word_at(left, "table")
                &&& s[0].1 is None
                &&& s[0].2 == c.bottom()
                &&& if name == "__index"@ || right.isa("function_definition") || name.len() == 0
                    || !(statement.up() matches Some(p) && p.up() is None) {
                    s[0].3 is None
                } else {
                    s[0].3 matches Some(f) && is_table_field(f, c, name, right.txt())
                }
            } else {
                s.len() == 0
            },
            _ => s.len() == 0,
        },
        _ => s.len() == 0,
    }
}

/// Statements of Lua that may say something of a table.
pub open spec fn note_nodes<'a>() -> spec_fn(Node<'a>) -> bool {
    |c: Node<'a>| c.isa("variable_declaration") || c.isa("assignment_statement")
}

/// Assignments of Lua.
pub open spec fn assignments<'a>() -> spec_fn(Node<'a>) -> bool {
    |c: Node<'a>| c.isa("assignment_statement")
}

/// What an assignment inside of a local declaration of Lua says.
pub open spec fn local_note<'a>(statement: Node<'a>) -> spec_fn(Seq<Note>, Node<'a>) -> bool {
    |s: Seq<Note>, c: Node<'a>| is_note(s, c, statement)
}

/// What a statement of Lua says of tables.
pub open spec fn notes<'a>() -> spec_fn(Seq<Note>, Node<'a>) -> bool {
    |s: Seq<Note>, c: Node<'a>|
        if c.isa("variable_declaration") {
            reports_kid_blocks(c, assignments(), local_note(c), s)
        } else {
            is_note(s, c, c)
        }
}

/// What the assignments of a Lua file say of tables is collected each one time, in the
/// order of the source, and nothing else is.
pub proof fn lua_notes_are_collected<'a>(root: Node<'a>)
    ensures
        reports_blocks(
            root,
            closed_by(lua_open()),
            note_nodes(),
            notes(),
            gathered(&Notes, root),
        ),
{
    let w = Notes;
    assert forall|c: Node<'a>| note_nodes()(c) implies notes()(#[trigger] w.yields(c), c) by {
        lemma_picked_blocks(
            &LocalNotes { declaration: c },
            c,
            assignments(),
            local_note(c),
        );
    }
    lemma_reported_blocks(&w, root, lua_open(), note_nodes(), notes());
}

/// Whether a line is that on which a table is made: the first of the lines that the first
/// `k` notes give for it.
pub open spec fn is_made_on(all: Seq<Note>, k: int, name: Seq<char>, line: Option<u32>) -> bool {
    match line {
        Some(l) => (exists|i: int|
            0 <= i < k && (#[trigger] all[i]).0 == name && all[i].1 == Some(l)) && forall|i: int|
            0 <= i < k && (#[trigger] all[i]).0 == name ==> (all[i].1 matches Some(m) ==> l <= m),
        None => forall|i: int| 0 <= i < k && (#[trigger] all[i]).0 == name ==> all[i].1 is None,
    }
}

/// Whether a field of the given name is among some fields.
pub open spec fn has_name(fields: Seq<Field>, name: Seq<char>) -> bool {
    exists|i: int| 0 <= i < fields.len() && (#[trigger] fields[i]).name == name
}

/// Whether a table has all that the first `k` notes say of it.
spec fn is_noted(all: Seq<Note>, k: int, t: Table) -> bool {
    &&& is_made_on(all, k, t.name, t.anchor)
    &&& forall|i: int|
        0 <= i < k && (#[trigger] all[i]).0 == t.name ==> all[i].2 <= t.line_end && (
        all[i].3 matches Some(f) ==> has_name(t.fields, f.name))
}

proof fn lemma_with_field(fields: Seq<Field>, f: Field)
    ensures
        has_name(with_field(fields, f), f.name),
        forall|name: Seq<char>|
            has_name(fields, name) ==> #[trigger] has_name(with_field(fields, f), name),
{
    let after = with_field(fields, f);
    assert forall|name: Seq<char>| has_name(fields, name) implies #[trigger] has_name(
        after,
        name,
    ) by {
        let i = choose|i: int| 0 <= i < fields.len() && (#[trigger] fields[i]).name == name;
        assert(after[i] == fields[i]);
    }
    if !crate::lang::lua::has_field(fields, f.name) {
        assert(after[fields.len() as int] == f);
    }
}

proof fn lemma_with_fields(fields: Seq<Field>, more: Seq<Field>, k: nat)
    requires
        k <= more.len(),
    ensures
        forall|name: Seq<char>|
            has_name(fields, name) ==> #[trigger] has_name(with_fields(fields, more, k), name),
        forall|i: int|
            0 <= i < k ==> has_name(with_fields(fields, more, k), (#[trigger] more[i]).name),
    decreases k,
{
    if k > 0 {
        lemma_with_fields(fields, more, (k - 1) as nat);
        lemma_with_field(with_fields(fields, more, (k - 1) as nat), more[k - 1]);
    }
}

/// Whether a table has all that the first `k` of its functions give it.
spec fn is_filled(functions: Seq<(Seq<char>, Function, Seq<Field>)>, k: int, t: Table) -> bool {
    forall|i: int, j: int|
        0 <= i < k && functions[i].0 == t.name && 0 <= j < functions[i].2.len() ==> has_name(
            t.fields,
            (#[trigger] functions[i].2[j]).name,
        )
}

proof fn lemma_filled(functions: Seq<(Seq<char>, Function, Seq<Field>)>, k: nat)
    requires
        k <= functions.len(),
    ensures
        ({
            let all = tables_with_methods(functions, k);
            &&& forall|x: int|
                0 <= x < all.len() ==> is_filled(functions, k as int, #[trigger] all[x])
                    && all[x].anchor is None
            &&& forall|x: int, y: int|
                0 <= x < y < all.len() ==> (#[trigger] all[x]).name != (#[trigger] all[y]).name
            &&& forall|g: int|
                0 <= g < k ==> exists|x: int|
                    0 <= x < all.len() && (#[trigger] all[x]).name == (#[trigger] functions[g]).0
        }),
    decreases k,
{
    if k > 0 {
        lemma_filled(functions, (k - 1) as nat);
        let before = tables_with_methods(functions, (k - 1) as nat);
        let all = tables_with_methods(functions, k);
        let (name, method, fields) = functions[k - 1];
        lemma_table_from(before, name, 0);
        match table_from(before, name, 0) {
            Some(at) => {
                lemma_with_fields(before[at].fields, fields, fields.len());
                assert forall|x: int| 0 <= x < all.len() implies is_filled(
                    functions,
                    k as int,
                    #[trigger] all[x],
                ) && all[x].anchor is None by {
                    assert(is_filled(functions, k - 1, before[x]));
                    if x < at {
                        assert(before[x].name != before[at].name);
                    } else if at < x {
                        assert(before[at].name != before[x].name);
                    }
                }
                assert forall|x: int, y: int| 0 <= x < y < all.len() implies (
                #[trigger] all[x]).name != (#[trigger] all[y]).name by {
                    assert(all[x].name == before[x].name && all[y].name == before[y].name);
                }
                assert forall|g: int| 0 <= g < k implies exists|x: int|
                    0 <= x < all.len() && (#[trigger] all[x]).name == (
                    #[trigger] functions[g]).0 by {
                    if g < k - 1 {
                        let x = choose|x: int|
                            0 <= x < before.len() && (#[trigger] before[x]).name == functions[g].0;
                        assert(all[x].name == functions[g].0);
                    } else {
                        assert(all[at].name == name);
                    }
                }
            },
            None => {
                lemma_with_fields(Seq::empty(), fields, fields.len());
                let last = before.len() as int;
                assert(all[last].name == name);
                assert forall|g: int| 0 <= g < k - 1 implies (#[trigger] functions[g]).0 != name by {
                    let x = choose|x: int|
                        0 <= x < before.len() && (#[trigger] before[x]).name == functions[g].0;
                    assert(before[x].name != name);
                }
                assert forall|x: int| 0 <= x < all.len() implies is_filled(
                    functions,
                    k as int,
                    #[trigger] all[x],
                ) && all[x].anchor is None by {
                    if x < last {
                        assert(all[x] == before[x]);
                        assert(is_filled(functions, k - 1, before[x]));
                        assert(before[x].name != name);
                    } else {
                        assert forall|i: int, j: int|
                            0 <= i < k && functions[i].0 == all[x].name && 0 <= j
                                < functions[i].2.len() implies has_name(
                            all[x].fields,
                            (#[trigger] functions[i].2[j]).name,
                        ) by {
                            assert(functions[i].0 == name);
                            assert(i == k - 1);
                        }
                    }
                }
                assert forall|x: int, y: int| 0 <= x < y < all.len() implies (
                #[trigger] all[x]).name != (#[trigger] all[y]).name by {
                    assert(all[x] == before[x]);
                    if y < last {
                        assert(all[y] == before[y]);
                    }
                }
                assert forall|g: int| 0 <= g < k implies exists|x: int|
                    0 <= x < all.len() && (#[trigger] all[x]).name == (
                    #[trigger] functions[g]).0 by {
                    if g < k - 1 {
                        let x = choose|x: int|
                            0 <= x < before.len() && (#[trigger] before[x]).name == functions[g].0;
                        assert(all[x].name == functions[g].0);
                    }
                }
            },
        }
    }
}

proof fn lemma_noted(
    functions: Seq<(Seq<char>, Function, Seq<Field>)>,
    start: Seq<Table>,
    notes: Seq<Note>,
    k: nat,
)
    requires
        k <= notes.len(),
        forall|x: int|
            0 <= x < start.len() ==> is_filled(
                functions,
                functions.len() as int,
                #[trigger] start[x],
            ) && start[x].anchor is None,
        forall|x: int, y: int|
            0 <= x < y < start.len() ==> (#[trigger] start[x]).name != (#[trigger] start[y]).name,
    ensures
        ({
            let all = with_notes(start, notes, k);
            &&& all.len() == start.len()
            &&& forall|x: int|
                0 <= x < all.len() ==> is_noted(notes, k as int, #[trigger] all[x]) && is_filled(
                    functions,
                    functions.len() as int,
                    all[x],
                ) && all[x].name == start[x].name && all[x].methods == start[x].methods
        }),
    decreases k,
{
    if k > 0 {
        lemma_noted(functions, start, notes, (k - 1) as nat);
        let before = with_notes(start, notes, (k - 1) as nat);
        let all = with_notes(start, notes, k);
        let note = notes[k - 1];
        lemma_table_from(before, note.0, 0);
        match table_from(before, note.0, 0) {
            Some(at) => {
                if note.3 is Some {
                    lemma_with_field(before[at].fields, note.3->0);
                }
                assert forall|x: int| 0 <= x < all.len() implies is_noted(
                    notes,
                    k as int,
                    #[trigger] all[x],
                ) && is_filled(functions, functions.len() as int, all[x]) && all[x].name
                    == start[x].name && all[x].methods == start[x].methods by {
                    let t = before[x];
                    assert(is_noted(notes, k - 1, t));
                    assert(is_filled(functions, functions.len() as int, t));
                    if x == at {
                        lemma_made_on(notes, k as int, t.name, t.anchor);
                    } else {
                        if x < at {
                            assert(start[x].name != start[at].name);
                        } else {
                            assert(start[at].name != start[x].name);
                        }
                        assert(t.name != note.0);
                        lemma_made_on(notes, k as int, t.name, t.anchor);
                    }
                }
            },
            None => {
                assert forall|x: int| 0 <= x < all.len() implies is_noted(
                    notes,
                    k as int,
                    #[trigger] all[x],
                ) by {
                    assert(is_noted(notes, k - 1, before[x]));
                    assert(before[x].name != note.0);
                    lemma_made_on(notes, k as int, before[x].name, before[x].anchor);
                }
            },
        }
    }
}

proof fn lemma_made_on(notes: Seq<Note>, k: int, name: Seq<char>, line: Option<u32>)
    requires
        0 < k <= notes.len(),
        is_made_on(notes, k - 1, name, line),
    ensures
        notes[k - 1].0 != name ==> is_made_on(notes, k, name, line),
        notes[k - 1].0 == name ==> is_made_on(
            notes,
            k,
            name,
            crate::lang::lua::earliest(line, notes[k - 1].1),
        ),
{
    if line is Some {
        let i = choose|i: int|
            0 <= i < k - 1 && (#[trigger] notes[i]).0 == name && notes[i].1 == line;
        assert(notes[i].0 == name && notes[i].1 == line);
    }
    if notes[k - 1].0 == name {
        let e = crate::lang::lua::earliest(line, notes[k - 1].1);
        if e is Some && e != line {
            assert(notes[k - 1].0 == name && notes[k - 1].1 == e);
        }
    }
}

proof fn lemma_first_line(methods: Seq<Function>, k: nat)
    requires
        0 < k <= methods.len(),
    ensures
        exists|m: int|
            0 <= m < k && (#[trigger] methods[m]).line_number == first_line(methods, k),
        forall|m: int|
            0 <= m < k ==> first_line(methods, k) <= (#[trigger] methods[m]).line_number,
        forall|m: int| 0 <= m < k ==> (#[trigger] methods[m]).line_end <= last_line(methods, k),
    decreases k,
{
    reveal_with_fuel(last_line, 2);
    if k > 1 {
        lemma_first_line(methods, (k - 1) as nat);
        let m = choose|m: int|
            0 <= m < k - 1 && (#[trigger] methods[m]).line_number == first_line(
                methods,
                (k - 1) as nat,
            );
        if first_line(methods, k) == first_line(methods, (k - 1) as nat) {
            assert(methods[m].line_number == first_line(methods, k));
        } else {
            assert(methods[k - 1].line_number == first_line(methods, k));
        }
    } else {
        assert(methods[0].line_number == first_line(methods, k));
    }
}

/// A table of Lua is reported on the first line on which it is made, or else on the first
/// line of its methods. It ends no earlier than what belongs to it, and has all fields that
/// it or its methods are given.
pub proof fn lua_tables_are_reported_where_they_are_made<'a>(root: Node<'a>, luau: bool, x: int)
    requires
        0 <= x < table_classes(root, luau).len(),
    ensures
        ({
            let class = table_classes(root, luau)[x];
            let notes = gathered(&Notes, root);
            let functions = gathered(&Methods { luau }, root);
            &&& if exists|i: int|
                0 <= i < notes.len() && (#[trigger] notes[i]).0 == class.name && notes[i].1
                    is Some {
                is_made_on(notes, notes.len() as int, class.name, Some(class.line_number))
            } else {
                class.methods.len() > 0 ==> (exists|m: int|
                    0 <= m < class.methods.len() && (#[trigger] class.methods[m]).line_number
                        == class.line_number) && forall|m: int|
                    0 <= m < class.methods.len() ==> class.line_number <= (
                    #[trigger] class.methods[m]).line_number
            }
            &&& forall|i: int|
                0 <= i < notes.len() && (#[trigger] notes[i]).0 == class.name ==> notes[i].2
                    <= class.line_end && (notes[i].3 matches Some(f) ==> has_name(
                    class.fields,
                    f.name,
                ))
            &&& forall|m: int|
                0 <= m < class.methods.len() ==> (#[trigger] class.methods[m]).line_end
                    <= class.line_end
            &&& forall|i: int, j: int|
                0 <= i < functions.len() && functions[i].0 == class.name && 0 <= j
                    < functions[i].2.len() ==> has_name(
                    class.fields,
                    (#[trigger] functions[i].2[j]).name,
                )
        }),
{
    let notes = gathered(&Notes, root);
    let functions = gathered(&Methods { luau }, root);
    lemma_filled(functions, functions.len());
    let start = tables_with_methods(functions, functions.len());
    lemma_noted(functions, start, notes, notes.len());
    let all = tables(root, luau);
    let t = all[x];
    assert(is_noted(notes, notes.len() as int, t));
    assert(is_filled(functions, functions.len() as int, t));
    assert(table_classes(root, luau)[x] == table_class(t));
    if t.methods.len() > 0 {
        lemma_first_line(t.methods, t.methods.len());
    }
    if exists|i: int|
        0 <= i < notes.len() && (#[trigger] notes[i]).0 == t.name && notes[i].1 is Some {
        let i = choose|i: int|
            0 <= i < notes.len() && (#[trigger] notes[i]).0 == t.name && notes[i].1 is Some;
        assert(t.anchor is Some);
    } else if t.anchor is Some {
        let i = choose|i: int|
            0 <= i < notes.len() && (#[trigger] notes[i]).0 == t.name && notes[i].1 == t.anchor;
        assert(notes[i].1 is Some);
    }
}

} // verus!
