//! The arithmetic of a rotation: an index that walks round a pool.

use vstd::arithmetic::div_mod::{
    lemma_add_mod_noop, lemma_add_mod_noop_right,
    lemma_fundamental_div_mod_converse, lemma_mod_bound, lemma_small_mod,
};
use vstd::prelude::*;

verus! {

/// The index `step` places after `index` in a pool of `len`, going round.
pub open spec fn stepped(index: int, step: int, len: int) -> int {
    (index + step) % len
}

/// The index one place before `index` in a pool of `len`, going round.
pub open spec fn stepped_back(index: int, len: int) -> int {
    (index + len - 1) % len
}

/// An index taken round a pool lies in the pool.
pub proof fn lemma_stepped_in_range(index: int, step: int, len: int)
    requires
        len > 0,
    ensures
        0 <= stepped(index, step, len) < len,
{
    lemma_mod_bound(index + step, len);
}

/// A step that is no multiple of the pool's length moves the index.
pub proof fn lemma_stepped_moves(index: int, step: int, len: int)
    requires
        0 <= index < len,
        step % len != 0,
    ensures
        stepped(index, step, len) != index,
{
    lemma_add_mod_noop_right(index, step, len);
    let rest = step % len;
    lemma_mod_bound(step, len);
    if index + rest < len {
        lemma_small_mod((index + rest) as nat, len as nat);
    } else {
        lemma_fundamental_div_mod_converse(index + rest, len, 1, index + rest - len);
    }
}

/// A step of a multiple of the pool's length leaves the index where it is.
pub proof fn lemma_stepped_stays(index: int, step: int, len: int)
    requires
        0 <= index < len,
        step % len == 0,
    ensures
        stepped(index, step, len) == index,
{
    lemma_add_mod_noop_right(index, step, len);
    lemma_small_mod(index as nat, len as nat);
}

/// The index `step` places after `index`, going round a pool of `len`.
pub fn step_forward(index: usize, step: usize, len: usize) -> (next: usize)
    requires
        len > 0,
    ensures
        next == stepped(index as int, step as int, len as int),
        next < len,
{
    let from = index % len;
    let rest = step % len;
    let room = len - from;
    proof {
        lemma_add_mod_noop(index as int, step as int, len as int);
        if rest < room {
            lemma_small_mod((from + rest) as nat, len as nat);
        } else {
            lemma_fundamental_div_mod_converse(from + rest, len as int, 1, from + rest - len);
        }
    }
    if rest < room {
        from + rest
    } else {
        rest - room
    }
}

/// The index one place before `index`, going round a pool of `len`.
pub fn step_back(index: usize, len: usize) -> (previous: usize)
    requires
        len > 0,
    ensures
        previous == stepped_back(index as int, len as int),
        previous < len,
{
    let from = index % len;
    proof {
        lemma_add_mod_noop(index as int, len - 1, len as int);
        lemma_small_mod((len - 1) as nat, len as nat);
        if from != 0 {
            lemma_fundamental_div_mod_converse(from + len - 1, len as int, 1, from - 1);
        }
    }
    if from == 0 {
        len - 1
    } else {
        from - 1
    }
}

/// `index` brought into a pool of `len` by going round.
pub fn wrapped(index: usize, len: usize) -> (inside: usize)
    requires
        len > 0,
    ensures
        inside == index % len,
        inside < len,
{
    index % len
}

} // verus!
