//! Reading the token stream: what the parsing functions share.

use crate::lex::token::{KindView, Token, TokenInfo};
use crate::loc::Loc;
use crate::parse::grammar::{after, covers, kind_at, loc_at, FailureView};
use vstd::prelude::*;

verus! {

/// Where parsing failed: the position of the token that did not fit, and
/// what was expected in its place.
#[derive(Debug, Clone, Copy, PartialEq, Eq)]
pub struct Failure {
    pub at: usize,
    pub expected: &'static str,
}

impl DeepView for Failure {
    type V = FailureView;

    open spec fn deep_view(&self) -> FailureView {
        FailureView { at: self.at as int, expected: self.expected@ }
    }
}

/// Whether parsing from `pos` came out as `want` says: the same failure,
/// or a node with the same view and the position behind its tokens.
pub open spec fn parsed<T: DeepView>(
    r: Result<(T, usize), Failure>,
    pos: usize,
    want: Result<(T::V, nat), FailureView>,
) -> bool {
    match want {
        Ok((node, n)) => r matches Ok((x, next)) && x.deep_view() == node && next == pos + n,
        Err(f) => r matches Err(e) && e.deep_view() == f,
    }
}

/// The kind of the token at `pos`, or `None` behind the last token.
pub(crate) fn peek(tokens: &Vec<Token>, pos: usize) -> (r: Option<&TokenInfo>)
    ensures
        match r {
            Some(kind) => pos < tokens.len() && *kind == tokens@[pos as int].kind
                && kind.deep_view() == kind_at(tokens.deep_view(), pos as int),
            None => pos >= tokens.len() && kind_at(tokens.deep_view(), pos as int)
                == KindView::Plain(TokenInfo::Eof),
        },
{
    if pos < tokens.len() {
        Some(&tokens[pos].kind)
    } else {
        None
    }
}

/// The location of the token at `pos`.
pub(crate) fn loc_of(tokens: &Vec<Token>, pos: usize) -> (loc: Loc)
    requires
        pos < tokens.len(),
    ensures
        loc == loc_at(tokens.deep_view(), pos as int),
{
    tokens[pos].loc
}

/// The location of the tokens from `first` up to `next`.
pub(crate) fn cover(tokens: &Vec<Token>, first: usize, next: usize) -> (loc: Loc)
    requires
        first < next <= tokens.len(),
    ensures
        loc == covers(tokens.deep_view(), first as int, next as int),
{
    tokens[first].loc.join(&tokens[next - 1].loc)
}

/// Appends a node to a list of nodes.
pub(crate) fn push_node<T: DeepView>(nodes: &mut Vec<T>, node: T)
    ensures
        final(nodes).deep_view() == old(nodes).deep_view().push(node.deep_view()),
        final(nodes).len() == old(nodes).len() + 1,
{
    nodes.push(node);
    assert(nodes.deep_view() =~= old(nodes).deep_view().push(node.deep_view()));
}

/// Copies the bytes of a string literal.
pub(crate) fn copy_bytes(bytes: &Vec<u8>) -> (copy: Vec<u8>)
    ensures
        copy@ == bytes@,
{
    let mut copy: Vec<u8> = Vec::new();
    let mut i: usize = 0;
    while i < bytes.len()
        invariant
            i <= bytes.len(),
            copy@ == bytes@.subrange(0, i as int),
        decreases bytes.len() - i,
    {
        copy.push(bytes[i]);
        assert(bytes@.subrange(0, i + 1) =~= bytes@.subrange(0, i as int).push(bytes@[i as int]));
        i = i + 1;
    }
    assert(bytes@.subrange(0, i as int) =~= bytes@);
    copy
}

/// Putting lists in front of the rest of a list one after the other is
/// putting their concatenation in front of it.
pub proof fn lemma_after_after<V>(
    a: Seq<V>,
    i: nat,
    b: Seq<V>,
    j: nat,
    rest: Result<(Seq<V>, nat), FailureView>,
)
    ensures
        after(a, i, after(b, j, rest)) == after(a + b, i + j, rest),
{
    if let Ok((more, n)) = rest {
        assert(a + (b + more) =~= (a + b) + more);
    }
}

} // verus!
