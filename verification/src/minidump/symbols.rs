//! Choosing one symbol per address from an object file's symbol table.
//!
//! Binaries commonly have several symbols at one address. Only defined function and data
//! symbols with a readable name are considered, and a globally visible symbol is preferred
//! over a private one; among equals, the first in the table wins.
use vstd::prelude::*;

verus! {

/// What the choice reads of one symbol of the table.
#[derive(Debug, Clone, Copy, PartialEq, Eq, Structural)]
pub struct SymbolCandidate {
    pub address: u64,
    /// The symbol is a definition.
    pub is_definition: bool,
    /// The symbol's kind is known (a function, data, or the like).
    pub kind_known: bool,
    /// The symbol's name could be read.
    pub has_name: bool,
    /// The symbol is globally visible.
    pub global: bool,
}

/// Whether a symbol may name its address.
pub open spec fn eligible(c: SymbolCandidate) -> bool {
    c.is_definition && c.kind_known && c.has_name
}

/// Whether symbol `i` may name address `a`.
pub open spec fn eligible_at(cs: Seq<SymbolCandidate>, a: u64, i: int) -> bool {
    0 <= i < cs.len() && eligible(cs[i]) && cs[i].address == a
}

/// The symbol chosen for address `a` from the table `cs`, read in order: the first that
/// may name it, replaced by a later global one while the current choice is not global.
pub open spec fn chosen(cs: Seq<SymbolCandidate>, a: u64) -> Option<int>
    decreases cs.len(),
{
    if cs.len() == 0 {
        None
    } else {
        let prev = chosen(cs.drop_last(), a);
        let n = cs.len() - 1;
        let c = cs.last();
        if eligible(c) && c.address == a {
            match prev {
                None => Some(n),
                Some(i) => if c.global && !cs[i].global {
                    Some(n)
                } else {
                    Some(i)
                },
            }
        } else {
            prev
        }
    }
}

/// The choice is the first global symbol that may name the address, or, when there is
/// none, the first symbol that may name it; there is a choice exactly when some symbol
/// may name the address.
pub proof fn lemma_chosen_prefers_first_global(cs: Seq<SymbolCandidate>, a: u64)
    ensures
        chosen(cs, a) is None <==> forall|j: int| !eligible_at(cs, a, j),
        chosen(cs, a) matches Some(i) ==> {
            &&& eligible_at(cs, a, i)
            &&& (exists|j: int| eligible_at(cs, a, j) && cs[j].global) ==> {
                &&& cs[i].global
                &&& forall|j: int| 0 <= j < i && eligible_at(cs, a, j) ==> !cs[j].global
            }
            &&& (forall|j: int| eligible_at(cs, a, j) ==> !cs[j].global) ==> forall|j: int|
                0 <= j < i ==> !eligible_at(cs, a, j)
        },
    decreases cs.len(),
{
    if cs.len() > 0 {
        let p = cs.drop_last();
        lemma_chosen_prefers_first_global(p, a);
        assert forall|j: int| 0 <= j < p.len() implies (eligible_at(p, a, j) == eligible_at(
            cs,
            a,
            j,
        ) && p[j] == cs[j]) by {}
        let n = cs.len() - 1;
        if eligible_at(cs, a, n) {
            assert(eligible(cs.last()) && cs.last().address == a);
        }
        if chosen(cs, a) is None {
            assert forall|j: int| !eligible_at(cs, a, j) by {
                if 0 <= j < p.len() {
                    assert(!eligible_at(p, a, j));
                }
            }
        }
        if let Some(i) = chosen(cs, a) {
            if exists|j: int| eligible_at(cs, a, j) && cs[j].global {
                let w = choose|j: int| eligible_at(cs, a, j) && cs[j].global;
                if w < n {
                    assert(eligible_at(p, a, w) && p[w].global);
                }
            }
            if forall|j: int| eligible_at(cs, a, j) ==> !cs[j].global {
                assert forall|j: int| eligible_at(p, a, j) implies !p[j].global by {
                    assert(eligible_at(cs, a, j));
                }
            }
        }
    }
}

/// Whether `out` lists, by strictly increasing address, the choice for every address of
/// the table `cs` that has one.
pub open spec fn is_choice_list(cs: Seq<SymbolCandidate>, out: Seq<(u64, usize)>) -> bool {
    &&& forall|k: int, l: int| 0 <= k < l < out.len() ==> out[k].0 < out[l].0
    &&& forall|k: int|
        0 <= k < out.len() ==> chosen(cs, #[trigger] out[k].0) == Some(out[k].1 as int)
    &&& forall|a: u64| #[trigger]
        chosen(cs, a) is Some ==> exists|k: int| 0 <= k < out.len() && out[k].0 == a
}

/// The symbol of each address that has one, by increasing address: the address and the
/// position of the chosen symbol in the table.
pub fn choose_symbols(cs: &Vec<SymbolCandidate>) -> (out: Vec<(u64, usize)>)
    ensures
        is_choice_list(cs@, out@),
{
    let mut out: Vec<(u64, usize)> = Vec::new();
    let mut n: usize = 0;
    assert(cs@.take(0) =~= Seq::<SymbolCandidate>::empty());
    while n < cs.len()
        invariant
            n <= cs@.len(),
            is_choice_list(cs@.take(n as int), out@),
        decreases cs@.len() - n,
    {
        let c = cs[n];
        let ghost pre = cs@.take(n as int);
        let ghost post = cs@.take(n + 1);
        assert(post.drop_last() =~= pre);
        assert(post.last() == c);
        proof {
            assert forall|i: int| 0 <= i < pre.len() implies post[i] == pre[i] by {}
        }
        if c.is_definition && c.kind_known && c.has_name {
            // the first entry whose address is not below the candidate's
            let mut pos: usize = 0;
            while pos < out.len() && out[pos].0 < c.address
                invariant
                    pos <= out@.len(),
                    forall|k: int| 0 <= k < pos ==> out@[k].0 < c.address,
                decreases out@.len() - pos,
            {
                pos = pos + 1;
            }
            let ghost old_out = out@;
            if pos < out.len() && out[pos].0 == c.address {
                let i = out[pos].1;
                proof {
                    assert(chosen(pre, c.address) == Some(i as int));
                    lemma_chosen_prefers_first_global(pre, c.address);
                    assert(post[i as int] == cs@[i as int]);
                }
                if c.global && !cs[i].global {
                    out.set(pos, (c.address, n));
                }
                proof {
                    assert forall|k: int| 0 <= k < out@.len() implies chosen(
                        post,
                        #[trigger] out@[k].0,
                    ) == Some(out@[k].1 as int) by {
                        assert(chosen(pre, old_out[k].0) == Some(old_out[k].1 as int));
                        if k != pos {
                            assert(out@[k] == old_out[k]);
                        }
                    }
                    assert forall|a: u64| #[trigger] chosen(post, a) is Some implies exists|k: int|
                        0 <= k < out@.len() && out@[k].0 == a by {
                        if a != c.address {
                            assert(chosen(pre, a) is Some);
                            let k = choose|k: int| 0 <= k < old_out.len() && old_out[k].0 == a;
                            assert(out@[k].0 == a);
                        } else {
                            assert(out@[pos as int].0 == a);
                        }
                    }
                }
            } else {
                out.insert(pos, (c.address, n));
                proof {
                    assert(chosen(pre, c.address) is None) by {
                        if chosen(pre, c.address) is Some {
                            let k = choose|k: int|
                                0 <= k < old_out.len() && old_out[k].0 == c.address;
                            if k < pos {
                            } else if k > pos {
                                assert(old_out[pos as int].0 < old_out[k].0);
                            }
                        }
                    }
                    assert forall|k: int, l: int| 0 <= k < l < out@.len() implies out@[k].0
                        < out@[l].0 by {
                        if l < pos {
                            assert(out@[k] == old_out[k] && out@[l] == old_out[l]);
                        } else if l == pos {
                            assert(out@[k] == old_out[k]);
                        } else if k < pos {
                            assert(out@[k] == old_out[k] && out@[l] == old_out[l - 1]);
                            assert(old_out[l - 1].0 >= c.address || l - 1 >= pos);
                            if pos < old_out.len() {
                                assert(old_out[pos as int].0 >= c.address);
                                assert(old_out[pos as int].0 != c.address);
                                if l - 1 > pos {
                                    assert(old_out[pos as int].0 < old_out[l - 1].0);
                                }
                            }
                        } else if k == pos {
                            assert(out@[l] == old_out[l - 1]);
                            assert(old_out[pos as int].0 >= c.address);
                            assert(old_out[pos as int].0 != c.address);
                            if l - 1 > pos {
                                assert(old_out[pos as int].0 < old_out[l - 1].0);
                            }
                        } else {
                            assert(out@[k] == old_out[k - 1] && out@[l] == old_out[l - 1]);
                        }
                    }
                    assert forall|k: int| 0 <= k < out@.len() implies chosen(
                        post,
                        #[trigger] out@[k].0,
                    ) == Some(out@[k].1 as int) by {
                        if k < pos {
                            assert(out@[k] == old_out[k]);
                            assert(chosen(pre, old_out[k].0) == Some(old_out[k].1 as int));
                        } else if k > pos {
                            assert(out@[k] == old_out[k - 1]);
                            assert(chosen(pre, old_out[k - 1].0) == Some(
                                old_out[k - 1].1 as int,
                            ));
                        }
                    }
                    assert forall|a: u64| #[trigger] chosen(post, a) is Some implies exists|k: int|
                        0 <= k < out@.len() && out@[k].0 == a by {
                        if a != c.address {
                            assert(chosen(pre, a) is Some);
                            let k = choose|k: int| 0 <= k < old_out.len() && old_out[k].0 == a;
                            if k < pos {
                                assert(out@[k].0 == a);
                            } else {
                                assert(out@[k + 1].0 == a);
                            }
                        } else {
                            assert(out@[pos as int].0 == a);
                        }
                    }
                }
            }
        } else {
            proof {
                assert forall|a: u64| chosen(post, a) == chosen(pre, a) by {}
            }
        }
        n = n + 1;
    }
    assert(cs@.take(n as int) =~= cs@);
    out
}

} // verus!
