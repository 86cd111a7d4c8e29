//! What holds of the classes of every file.

use vstd::prelude::*;

use crate::extract::{classes_in, functions_in};
use crate::grouping::{attached_all, class_elsewhere, class_from};
use crate::lang;
use crate::lists::group_lists;
use crate::tree::{
    at_or_below, group_tree, lemma_at_below, lemma_below_transitive, lemma_kid_of_parent, Node,
};
use crate::types::{Class, Function, Language};
use crate::walk::{all_have, gathered, gathered_upto, lemma_gathered, picked, Walker};

verus! {

broadcast use {group_tree, group_lists};

/// The methods of those of the first `k` groups that have the given name, in
/// order.
pub open spec fn methods_for(
    groups: Seq<(Seq<char>, Seq<Function>)>,
    name: Seq<char>,
    k: nat,
) -> Seq<Function>
    decreases k,
{
    if k == 0 {
        Seq::empty()
    } else if groups[k - 1].0 == name {
        methods_for(groups, name, (k - 1) as nat) + groups[k - 1].1
    } else {
        methods_for(groups, name, (k - 1) as nat)
    }
}

/// A class with more methods.
pub open spec fn with_more(class: Class, methods: Seq<Function>) -> Class {
    Class { methods: class.methods + methods, ..class }
}

pub(crate) proof fn lemma_class_from(classes: Seq<Class>, name: Seq<char>, i: int)
    requires
        0 <= i,
    ensures
        class_from(classes, name, i) matches Some(k) ==> i <= k < classes.len() && classes[k].name
            == name && forall|j: int| i <= j < k ==> (#[trigger] classes[j]).name != name,
        class_from(classes, name, i) is None ==> forall|j: int|
            i <= j < classes.len() ==> (#[trigger] classes[j]).name != name,
    decreases classes.len() - i,
{
    if i < classes.len() {
        lemma_class_from(classes, name, i + 1);
    }
}

/// What attaching groups of methods makes of classes.
pub open spec fn shared_out(
    classes: Seq<Class>,
    groups: Seq<(Seq<char>, Seq<Function>)>,
    create: bool,
    k: nat,
    res: Seq<Class>,
) -> bool {
    &&& classes.len() <= res.len()
    &&& !create ==> classes.len() == res.len()
    &&& forall|i: int|
        0 <= i < classes.len() ==> #[trigger] res[i] == if class_from(classes, classes[i].name, 0)
            == Some(i) {
            with_more(classes[i], methods_for(groups, classes[i].name, k))
        } else {
            classes[i]
        }
    &&& forall|i: int|
        classes.len() <= i < res.len() ==> #[trigger] res[i] == class_elsewhere(
            res[i].name,
            methods_for(groups, res[i].name, k),
        )
    &&& forall|i: int, j: int|
        0 <= i < j < res.len() && classes.len() <= j ==> (#[trigger] res[i]).name != (
        #[trigger] res[j]).name
    &&& create ==> forall|g: int|
        0 <= g < k ==> exists|i: int|
            0 <= i < res.len() && (#[trigger] res[i]).name == (#[trigger] groups[g]).0
}

proof fn lemma_no_methods_for(groups: Seq<(Seq<char>, Seq<Function>)>, name: Seq<char>, k: nat)
    requires
        forall|g: int| 0 <= g < k ==> (#[trigger] groups[g]).0 != name,
    ensures
        methods_for(groups, name, k) == Seq::<Function>::empty(),
    decreases k,
{
    if k > 0 {
        lemma_no_methods_for(groups, name, (k - 1) as nat);
        assert(groups[k - 1].0 != name);
    }
}

/// Attaching groups of methods to classes keeps the classes in order, with all
/// that they have. The first class of a name gets the methods of all groups of
/// that name, in order. Where classes may come to be, no group is lost: each
/// further name gets one class.
pub proof fn attaching_shares_out_all_groups(
    classes: Seq<Class>,
    groups: Seq<(Seq<char>, Seq<Function>)>,
    create: bool,
    k: nat,
)
    requires
        k <= groups.len(),
    ensures
        shared_out(classes, groups, create, k, attached_all(classes, groups, create, k)),
    decreases k,
{
    let res = attached_all(classes, groups, create, k);
    if k == 0 {
        assert forall|i: int| 0 <= i < classes.len() implies #[trigger] res[i] == if class_from(
            classes,
            classes[i].name,
            0,
        ) == Some(i) {
            with_more(classes[i], methods_for(groups, classes[i].name, k))
        } else {
            classes[i]
        } by {
            assert(with_more(classes[i], Seq::empty()) == classes[i]);
        }
    } else {
        let j = (k - 1) as nat;
        attaching_shares_out_all_groups(classes, groups, create, j);
        let before = attached_all(classes, groups, create, j);
        let name = groups[k - 1].0;
        let methods = groups[k - 1].1;
        lemma_class_from(before, name, 0);
        lemma_class_from(classes, name, 0);
        match class_from(before, name, 0) {
            Some(x) => {
                assert forall|i: int| 0 <= i < classes.len() implies #[trigger] res[i]
                    == if class_from(classes, classes[i].name, 0) == Some(i) {
                    with_more(classes[i], methods_for(groups, classes[i].name, k))
                } else {
                    classes[i]
                } by {
                    assert(before[i].name == classes[i].name);
                    lemma_class_from(classes, classes[i].name, 0);
                    if classes[i].name == name {
                        let own = class_from(classes, name, 0)->0;
                        assert(before[own].name == name);
                        assert(own == x) by {
                            if x < own {
                                assert(before[x].name == classes[x].name);
                            }
                        }
                        assert(classes[i].methods + methods_for(groups, name, j) + methods
                            =~= classes[i].methods + (methods_for(groups, name, j) + methods));
                    }
                }
                assert forall|i: int| classes.len() <= i < res.len() implies #[trigger] res[i]
                    == class_elsewhere(res[i].name, methods_for(groups, res[i].name, k)) by {
                    assert(before[i] == class_elsewhere(
                        before[i].name,
                        methods_for(groups, before[i].name, j),
                    ));
                    if i != x && before[i].name == name {
                        if x < i {
                            assert(before[x].name != before[i].name);
                        }
                    }
                }
                assert forall|a: int, b: int|
                    0 <= a < b < res.len() && classes.len() <= b implies (#[trigger] res[a]).name
                    != (#[trigger] res[b]).name by {
                    assert(res[a].name == before[a].name);
                    assert(res[b].name == before[b].name);
                }
                if create {
                    assert forall|g: int| 0 <= g < k implies exists|i: int|
                        0 <= i < res.len() && (#[trigger] res[i]).name == (
                        #[trigger] groups[g]).0 by {
                        if g < j {
                            let i = choose|i: int|
                                0 <= i < before.len() && (#[trigger] before[i]).name
                                    == groups[g].0;
                            assert(res[i].name == groups[g].0);
                        } else {
                            assert(res[x].name == name);
                        }
                    }
                }
            },
            None => {
                assert forall|i: int| 0 <= i < classes.len() implies (#[trigger] classes[i]).name
                    != name by {
                    assert(before[i].name == classes[i].name);
                }
                if create {
                    assert forall|g: int| 0 <= g < j implies (#[trigger] groups[g]).0 != name by {
                        let i = choose|i: int|
                            0 <= i < before.len() && (#[trigger] before[i]).name == groups[g].0;
                        assert(before[i].name != name);
                    }
                    lemma_no_methods_for(groups, name, j);
                    assert(res[before.len() as int] == class_elsewhere(name, methods));
                    assert forall|i: int| classes.len() <= i < res.len() implies #[trigger] res[i]
                        == class_elsewhere(res[i].name, methods_for(groups, res[i].name, k)) by {
                        if i < before.len() {
                            assert(res[i] == before[i]);
                        }
                    }
                    assert forall|a: int, b: int|
                        0 <= a < b < res.len() && classes.len() <= b implies (
                    #[trigger] res[a]).name != (#[trigger] res[b]).name by {
                        assert(res[a] == before[a]);
                        if b < before.len() {
                            assert(res[b] == before[b]);
                        }
                    }
                    assert forall|g: int| 0 <= g < k implies exists|i: int|
                        0 <= i < res.len() && (#[trigger] res[i]).name == (
                        #[trigger] groups[g]).0 by {
                        if g < j {
                            let i = choose|i: int|
                                0 <= i < before.len() && (#[trigger] before[i]).name
                                    == groups[g].0;
                            assert(res[i].name == groups[g].0);
                        } else {
                            assert(res[before.len() as int].name == name);
                        }
                    }
                }
            },
        }
    }
}

/// In Go every method of a file is a method of the type that it is declared
/// for. A type that the file does not declare is reported with its methods.
pub proof fn go_methods_belong_to_their_types(root: Node<'_>)
    ensures
        shared_out(
            picked(&lang::go::Types, root),
            gathered(&lang::go::Methods, root),
            true,
            gathered(&lang::go::Methods, root).len(),
            classes_in(root, Language::Go),
        ),
{
    let groups = gathered(&lang::go::Methods, root);
    attaching_shares_out_all_groups(
        picked(&lang::go::Types, root),
        groups,
        true,
        groups.len(),
    );
}

/// In Rust the methods of impl blocks are methods of the type that the blocks
/// are for. Blocks for types that the file does not declare are left out.
pub proof fn rust_methods_belong_to_their_types(root: Node<'_>)
    ensures
        shared_out(
            gathered(&lang::rust::Types, root),
            gathered(&lang::rust::Impls, root),
            false,
            gathered(&lang::rust::Impls, root).len(),
            classes_in(root, Language::Rust),
        ),
{
    let groups = gathered(&lang::rust::Impls, root);
    attaching_shares_out_all_groups(
        gathered(&lang::rust::Types, root),
        groups,
        false,
        groups.len(),
    );
}

proof fn lemma_gathers_kid<'a, W: Walker>(w: &W, n: Node<'a>, i: int, k: nat, x: <W::Item as DeepView>::V)
    requires
        0 <= i < k <= n.arity(),
        w.enters(n.kid(i)) == Some(n.kid(i)),
        w.yields(n.kid(i)).contains(x) || gathered(w, n.kid(i)).contains(x),
    ensures
        gathered_upto(w, n, k).contains(x),
    decreases k,
{
    let c = n.kid(k - 1);
    let before = gathered_upto(w, n, (k - 1) as nat);
    let own = w.yields(c);
    let below = match w.enters(c) {
        Some(d) if d.rank() <= c.rank() => gathered_upto(w, d, d.arity()),
        _ => Seq::empty(),
    };
    let all = gathered_upto(w, n, k);
    assert(all == before + (own + below));
    if i < k - 1 {
        lemma_gathers_kid(w, n, i, (k - 1) as nat, x);
        let at = choose|at: int| 0 <= at < before.len() && before[at] == x;
        assert(all[at] == x);
    } else if own.contains(x) {
        let at = choose|at: int| 0 <= at < own.len() && own[at] == x;
        assert(all[before.len() + at] == x);
    } else {
        let at = choose|at: int| 0 <= at < below.len() && below[at] == x;
        assert(all[before.len() + own.len() + at] == x);
    }
}

proof fn lemma_gathers_below<'a, W: Walker>(w: &W, n: Node<'a>, d: Node<'a>, x: <W::Item as DeepView>::V)
    requires
        at_or_below(n, d),
        forall|c: Node<'a>| (#[trigger] w.enters(c)) == Some(c),
        gathered(w, d).contains(x),
    ensures
        gathered(w, n).contains(x),
    decreases d.index(),
{
    if d != n {
        let p = d.up()->0;
        lemma_kid_of_parent(d);
        assert(w.enters(d) == Some(d));
        lemma_gathers_kid(w, p, d.slot() as int, p.arity(), x);
        lemma_gathers_below(w, n, p, x);
    }
}

/// Whether all methods of a class are among some functions.
pub open spec fn methods_are_among(functions: Seq<Function>) -> spec_fn(Class) -> bool {
    |class: Class|
        forall|i: int|
            0 <= i < class.methods.len() ==> functions.contains(#[trigger] class.methods[i])
}

/// In Java every method of a class is reported among the functions of the file
/// too.
pub proof fn java_methods_are_functions_too<'a>(root: Node<'a>)
    ensures
        all_have(
            classes_in(root, Language::Java),
            methods_are_among(functions_in(root, Language::Java)),
        ),
{
    let p = methods_are_among(functions_in(root, Language::Java));
    let w = lang::java::Classes;
    let f = lang::java::Functions;
    assert forall|c: Node<'a>| at_or_below(root, c) implies all_have(#[trigger] w.yields(c), p) by {
        let class = lang::java::class_info(c);
        lemma_at_below(c, "body");
        assert forall|i: int| 0 <= i < class.methods.len() implies functions_in(
            root,
            Language::Java,
        ).contains(#[trigger] class.methods[i]) by {
            let body = c.at("body")->0;
            lemma_below_transitive(root, c, body);
            assert(gathered(&f, body).contains(class.methods[i]));
            lemma_gathers_below(&f, root, body, class.methods[i]);
        }
    }
    lemma_gathered(&w, root, p);
}

} // verus!
