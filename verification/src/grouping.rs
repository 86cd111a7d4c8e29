//! Classes that get their methods from elsewhere in the file.

use vstd::prelude::*;

use crate::lists::{backwards, emit, extend, group_lists, none};
use crate::tree::same;
use crate::types::{Class, ClassInfo, Function, FunctionInfo};

verus! {

broadcast use group_lists;

/// The first class at or behind position `i` with the given name.
pub open spec fn class_from(classes: Seq<Class>, name: Seq<char>, i: int) -> Option<int>
    decreases classes.len() - i,
{
    if i < 0 || i >= classes.len() {
        None
    } else if classes[i].name == name {
        Some(i)
    } else {
        class_from(classes, name, i + 1)
    }
}

/// The first class with the given name.
pub fn find_class(classes: &Vec<ClassInfo>, name: &str) -> (res: Option<usize>)
    ensures
        res matches Some(k) ==> class_from(classes.deep_view(), name@, 0) == Some(k as int) && k
            < classes@.len(),
        res is None ==> class_from(classes.deep_view(), name@, 0) is None,
{
    let ghost all = classes.deep_view();
    let mut i: usize = 0;
    while i < classes.len()
        invariant
            i <= classes.len(),
            all == classes.deep_view(),
            class_from(all, name@, 0) == class_from(all, name@, i as int),
        decreases classes.len() - i,
    {
        assert(all[i as int] == classes@[i as int].deep_view());
        if same(classes[i].name.as_str(), name) {
            return Some(i);
        }
        i += 1;
    }
    None
}

/// The classes, the one at position `i` with further methods.
pub open spec fn with_methods(classes: Seq<Class>, i: int, methods: Seq<Function>) -> Seq<Class> {
    classes.update(i, Class { methods: classes[i].methods + methods, ..classes[i] })
}

/// Gives the class at position `i` further methods.
pub fn add_methods(classes: &mut Vec<ClassInfo>, i: usize, methods: Vec<FunctionInfo>)
    requires
        i < old(classes)@.len(),
    ensures
        final(classes).deep_view() == with_methods(
            old(classes).deep_view(),
            i as int,
            methods.deep_view(),
        ),
{
    let ghost before = classes.deep_view();
    assert(before[i as int] == classes@[i as int].deep_view());
    extend(&mut classes[i].methods, methods);
    assert(classes.deep_view() =~= with_methods(before, i as int, methods.deep_view()));
}

/// A class that the file only shows methods of.
pub open spec fn class_elsewhere(name: Seq<char>, methods: Seq<Function>) -> Class {
    Class {
        name,
        bases: Seq::empty(),
        docstring: None,
        methods,
        fields: Seq::empty(),
        decorators: Seq::empty(),
        line_number: 0,
        line_end: 0,
        kind: None,
        modifiers: Seq::empty(),
        events: Seq::empty(),
        errors: Seq::empty(),
    }
}

/// A class that the file only shows methods of.
pub fn new_class_elsewhere(name: String, methods: Vec<FunctionInfo>) -> (res: ClassInfo)
    ensures
        res.deep_view() == class_elsewhere(name@, methods.deep_view()),
{
    ClassInfo {
        name,
        bases: none(),
        docstring: None,
        methods,
        fields: none(),
        decorators: none(),
        line_number: 0,
        line_end: 0,
        kind: None,
        modifiers: none(),
        events: none(),
        errors: none(),
    }
}

/// The classes with further methods on the first class of the given name.
/// Where there is none, a class that stands elsewhere can be created for them.
pub open spec fn attached(
    classes: Seq<Class>,
    name: Seq<char>,
    methods: Seq<Function>,
    create: bool,
) -> Seq<Class> {
    match class_from(classes, name, 0) {
        Some(k) => with_methods(classes, k, methods),
        None => if create {
            classes + seq![class_elsewhere(name, methods)]
        } else {
            classes
        },
    }
}

/// The classes with the first `k` groups of methods.
pub open spec fn attached_all(
    classes: Seq<Class>,
    groups: Seq<(Seq<char>, Seq<Function>)>,
    create: bool,
    k: nat,
) -> Seq<Class>
    decreases k,
{
    if k == 0 {
        classes
    } else {
        attached(
            attached_all(classes, groups, create, (k - 1) as nat),
            groups[k - 1].0,
            groups[k - 1].1,
            create,
        )
    }
}

fn attach(classes: &mut Vec<ClassInfo>, name: String, methods: Vec<FunctionInfo>, create: bool)
    ensures
        final(classes).deep_view() == attached(
            old(classes).deep_view(),
            name@,
            methods.deep_view(),
            create,
        ),
{
    match find_class(classes, name.as_str()) {
        Some(k) => add_methods(classes, k, methods),
        None => {
            if create {
                emit(classes, new_class_elsewhere(name, methods));
            }
        },
    }
}

/// Gives the classes the methods that are grouped by the names of classes.
pub fn attach_all(
    classes: &mut Vec<ClassInfo>,
    groups: Vec<(String, Vec<FunctionInfo>)>,
    create: bool,
)
    ensures
        final(classes).deep_view() == attached_all(
            old(classes).deep_view(),
            groups.deep_view(),
            create,
            groups@.len(),
        ),
{
    let ghost start = classes.deep_view();
    let ghost all = groups.deep_view();
    let mut rest = backwards(groups);
    let ghost mut done: nat = 0;
    assert(rest.deep_view().len() == all.len());
    assert(all.skip(0) =~= all);
    while rest.len() > 0
        invariant
            done + rest@.len() == all.len(),
            rest.deep_view() == all.skip(done as int).reverse(),
            classes.deep_view() == attached_all(start, all, create, done),
        decreases rest.len(),
    {
        let ghost before = rest.deep_view();
        match rest.pop() {
            Some(item) => {
                assert(item.deep_view() == before.last());
                assert(before.last() == all[done as int]);
                assert(rest.deep_view() =~= before.drop_last());
                assert(before.drop_last() =~= all.skip((done + 1) as int).reverse());
                let (name, methods) = item;
                assert(all[done as int] == (name@, methods.deep_view()));
                attach(classes, name, methods, create);
                proof {
                    done = done + 1;
                }
            },
            None => {},
        }
    }
}

} // verus!
