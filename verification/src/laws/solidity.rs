//! What holds of the modifiers, events and errors of every Solidity file.

use vstd::prelude::*;

use crate::lang::solidity::{
    error_info, event_info, is_contract, modifier_info, FileErrors, FileEvents, FileModifiers,
};
use crate::lists::group_lists;
use crate::tree::{
    at_or_below, group_tree, lemma_below_transitive, lemma_kid_below, lemma_parent_of_kid, Node,
};
use crate::types::{ContractError, Event, Modifier};
use crate::walk::{all_have, gathered, gathered_upto, Walker};

verus! {

broadcast use {group_tree, group_lists};

/// Whether a node is part of a contract, interface or library.
pub open spec fn in_contract(n: Node<'_>) -> bool
    decreases n.index(),
{
    is_contract(n) || (n.up() matches Some(p) && in_contract(p))
}

proof fn lemma_outside<'a, W: Walker>(
    w: &W,
    m: Node<'a>,
    n: Node<'a>,
    k: nat,
    p: spec_fn(<W::Item as DeepView>::V) -> bool,
)
    requires
        at_or_below(m, n),
        !in_contract(n),
        k <= n.arity(),
        forall|c: Node<'a>|
            at_or_below(m, c) && !in_contract(c) ==> all_have(#[trigger] w.yields(c), p),
        forall|c: Node<'a>| is_contract(c) ==> (#[trigger] w.yields(c)).len() == 0,
        forall|c: Node<'a>|
            (#[trigger] w.enters(c)) matches Some(d) ==> d == c && !is_contract(c),
    ensures
        all_have(gathered_upto(w, n, k), p),
    decreases n.rank(), k,
{
    if k > 0 {
        lemma_outside(w, m, n, (k - 1) as nat, p);
        let c = n.kid(k - 1);
        lemma_kid_below(n, k - 1);
        lemma_below_transitive(m, n, c);
        lemma_parent_of_kid(n, k - 1);
        match w.enters(c) {
            Some(_) => {
                lemma_outside(w, m, c, c.arity(), p);
            },
            None => {},
        }
    }
}

/// The modifiers, events and errors that are reported of a file as a whole are
/// those of nodes that are no part of a contract.
pub proof fn file_lists_leave_contracts_out<'a>(root: Node<'a>)
    requires
        !in_contract(root),
    ensures
        all_have(
            gathered(&FileModifiers, root),
            |m: Modifier|
                exists|d: Node<'a>| #[trigger]
                    at_or_below(root, d) && !in_contract(d) && m == modifier_info(d),
        ),
        all_have(
            gathered(&FileEvents, root),
            |e: Event|
                exists|d: Node<'a>| #[trigger]
                    at_or_below(root, d) && !in_contract(d) && e == event_info(d),
        ),
        all_have(
            gathered(&FileErrors, root),
            |e: ContractError|
                exists|d: Node<'a>| #[trigger]
                    at_or_below(root, d) && !in_contract(d) && e == error_info(d),
        ),
{
    reveal_strlit("contract_declaration");
    reveal_strlit("interface_declaration");
    reveal_strlit("library_declaration");
    reveal_strlit("modifier_definition");
    reveal_strlit("event_definition");
    reveal_strlit("error_declaration");
    assert("contract_declaration"@.len() == 20);
    assert("interface_declaration"@.len() == 21);
    assert("library_declaration"@.len() == 19);
    assert("modifier_definition"@.len() == 19);
    assert("modifier_definition"@[0] == 'm');
    assert("library_declaration"@[0] == 'l');
    assert("event_definition"@.len() == 16);
    assert("error_declaration"@.len() == 17);
    lemma_outside(
        &FileModifiers,
        root,
        root,
        root.arity(),
        |m: Modifier|
            exists|d: Node<'a>| #[trigger]
                at_or_below(root, d) && !in_contract(d) && m == modifier_info(d),
    );
    lemma_outside(
        &FileEvents,
        root,
        root,
        root.arity(),
        |e: Event|
            exists|d: Node<'a>| #[trigger]
                at_or_below(root, d) && !in_contract(d) && e == event_info(d),
    );
    lemma_outside(
        &FileErrors,
        root,
        root,
        root.arity(),
        |e: ContractError|
            exists|d: Node<'a>| #[trigger]
                at_or_below(root, d) && !in_contract(d) && e == error_info(d),
    );
}

} // verus!
