//! Reading the invoked subcommand and its arguments out of the invocation
//! tokens `[program path, command, arguments...]`.

use vstd::prelude::*;

verus! {

/// The command named by an invocation: the token at index 1, or the empty
/// sequence where there is none.
pub open spec fn command_of(tokens: Seq<String>) -> Seq<char> {
    if tokens.len() > 1 {
        tokens[1]@
    } else {
        Seq::empty()
    }
}

/// The arguments passed on after the command: every token from index 2 on,
/// none where fewer than three tokens were given.
pub open spec fn remaining_of(tokens: Seq<String>) -> Seq<String> {
    if tokens.len() > 2 {
        tokens.skip(2)
    } else {
        Seq::empty()
    }
}

/// The invoked command: the second token, or an empty string where only the
/// program path (or nothing) was given.
pub fn get_cmd(tokens: &[String]) -> (r: String)
    ensures
        r@ == command_of(tokens@),
        tokens@.len() <= 1 ==> r@.len() == 0,
{
    if tokens.len() > 1 {
        tokens[1].clone()
    } else {
        String::new()
    }
}

/// The tokens after the program path and the command. Fewer than two tokens
/// give an empty vector.
pub fn get_args(tokens: &[String]) -> (r: Vec<String>)
    ensures
        r@ == remaining_of(tokens@),
        tokens@.len() <= 1 ==> r@.len() == 0,
{
    let mut r: Vec<String> = Vec::new();
    let mut i: usize = 2;
    while i < tokens.len()
        invariant
            2 <= i,
            tokens@.len() > 2 ==> i <= tokens@.len(),
            tokens@.len() > 2 ==> r@ =~= tokens@.subrange(2, i as int),
            tokens@.len() <= 2 ==> r@.len() == 0,
        decreases tokens@.len() - i,
    {
        r.push(tokens[i].clone());
        i += 1;
    }
    proof {
        if tokens@.len() <= 2 {
            assert(r@ =~= Seq::<String>::empty());
        } else {
            assert(r@ =~= tokens@.skip(2));
        }
    }
    r
}

} // verus!
