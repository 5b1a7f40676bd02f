//! What holds of name resolution on every message.

use crate::parse::dns::compressed_name::{
    lemma_prefix_without_text, root_text, spec_chain, spec_resolve, spec_resolve_tokens,
    spec_resolved, spec_token, spec_tokens, NameChain, NameToken, spec_token_text,
    CHAIN_TOKEN_MAX, RESOLVE_NAME_RECURSION_MAX,
};
use crate::parse::dns::text::join_texts;
use vstd::prelude::*;
use vstd::utf8::decode_utf8;

verus! {

/// Tokens read from bytes are no more than the budget, and only the last of
/// them can be a pointer.
pub proof fn lemma_tokens_shape(i: Seq<u8>, budget: nat)
    ensures
        spec_tokens(i, budget) is Ok ==> spec_tokens(i, budget)->Ok_0.0.len() <= budget,
        spec_tokens(i, budget) is Ok ==> forall|k: int|
            0 <= k < spec_tokens(i, budget)->Ok_0.0.len() - 1 ==> (#[trigger] spec_tokens(
                i,
                budget,
            )->Ok_0.0[k]) is Label,
    decreases budget,
{
    if budget > 0 && spec_token(i) is Ok {
        lemma_tokens_shape(i.skip(spec_token(i)->Ok_0.1), (budget - 1) as nat);
    }
}

/// A chain read from bytes is the root, resolved and without tokens, or is
/// unresolved with at most a hundred tokens, of which only the last can be
/// a pointer.
pub proof fn lemma_chain_shape(i: Seq<u8>)
    ensures
        spec_chain(i) is Ok ==> spec_chain(i)->Ok_0.0.tokens.len() <= CHAIN_TOKEN_MAX,
        spec_chain(i) is Ok ==> forall|k: int|
            0 <= k < spec_chain(i)->Ok_0.0.tokens.len() - 1 ==> (#[trigger] spec_chain(
                i,
            )->Ok_0.0.tokens[k]) is Label,
        spec_chain(i) is Ok && i[0] == 0 ==> spec_chain(i)->Ok_0.0.name == Some(root_text())
            && spec_chain(i)->Ok_0.0.tokens.len() == 0,
        spec_chain(i) is Ok && i[0] != 0 ==> spec_chain(i)->Ok_0.0.name is None,
{
    lemma_tokens_shape(i, CHAIN_TOKEN_MAX as nat);
}

/// The text of a label read from bytes is not empty.
pub proof fn lemma_label_not_empty(i: Seq<u8>)
    ensures
        spec_token(i) is Ok && spec_token(i)->Ok_0.0 is Some && spec_token(i)->Ok_0.0->Some_0
            is Label ==> spec_token(i)->Ok_0.0->Some_0->Label_0.len() > 0,
{
    if spec_token(i) is Ok && spec_token(i)->Ok_0.0 is Some && spec_token(i)->Ok_0.0->Some_0
        is Label {
        let len = i[0] as int % 64;
        let bytes = i.subrange(1, 1 + len);
        assert(bytes.len() > 0);
        assert(decode_utf8(bytes).len() > 0);
    }
}

/// Texts joined are not empty where one of them is not.
pub proof fn lemma_join_not_empty(parts: Seq<Seq<char>>, sep: Seq<char>, k: int)
    requires
        0 <= k < parts.len(),
        parts[k].len() > 0,
    ensures
        join_texts(parts, sep).len() > 0,
    decreases parts.len(),
{
    if parts.len() > 1 && k < parts.len() - 1 {
        lemma_join_not_empty(parts.drop_last(), sep, k);
    }
}

/// The texts of tokens are as many as the tokens, each the text of its
/// token.
pub proof fn lemma_texts_of_tokens(tokens: Seq<NameToken>, depth: nat, msg: Seq<u8>)
    ensures
        spec_resolve_tokens(tokens, depth, msg) is Some ==> spec_resolve_tokens(
            tokens,
            depth,
            msg,
        )->Some_0.len() == tokens.len(),
        spec_resolve_tokens(tokens, depth, msg) is Some ==> forall|k: int|
            0 <= k < tokens.len() ==> spec_token_text(#[trigger] tokens[k], depth, msg) == Some(
                spec_resolve_tokens(tokens, depth, msg)->Some_0[k],
            ),
    decreases tokens.len(),
{
    if tokens.len() > 0 && spec_resolve_tokens(tokens, depth, msg) is Some {
        let head = tokens.drop_last();
        lemma_texts_of_tokens(head, depth, msg);
        let parts = spec_resolve_tokens(tokens, depth, msg)->Some_0;
        let head_parts = spec_resolve_tokens(head, depth, msg)->Some_0;
        assert forall|k: int| 0 <= k < tokens.len() implies spec_token_text(
            #[trigger] tokens[k],
            depth,
            msg,
        ) == Some(parts[k]) by {
            if k < tokens.len() - 1 {
                assert(tokens[k] == head[k]);
                assert(parts[k] == head_parts[k]);
            } else {
                assert(tokens[k] == tokens.last());
            }
        }
    }
}

/// True of bytes that start a name which holds a text: the root, a label,
/// or a pointer from which at most `hops` pointers in a row lead to the
/// root or to a label.
pub open spec fn leads_to_text(msg: Seq<u8>, i: Seq<u8>, hops: nat) -> bool
    decreases hops,
{
    &&& i.len() > 0
    &&& i[0] < 64 || (i[0] >= 192 && i.len() >= 2 && hops > 0 && leads_to_text(
        msg,
        msg.skip((i[0] as int % 64) * 256 + i[1] as int),
        (hops - 1) as nat,
    ))
}

/// A name that was read from bytes and resolved is not empty, where its
/// bytes start with the root, with a label, or with pointers that lead to
/// one of them.
pub proof fn lemma_name_not_empty(msg: Seq<u8>, i: Seq<u8>, hops: nat, depth: nat)
    requires
        leads_to_text(msg, i, hops),
        spec_chain(i) is Ok,
        spec_resolve(spec_chain(i)->Ok_0.0, depth, msg) is Some,
    ensures
        spec_resolve(spec_chain(i)->Ok_0.0, depth, msg)->Some_0.len() > 0,
    decreases hops,
{
    let chain = spec_chain(i)->Ok_0.0;
    if i[0] == 0 {
        reveal_strlit("<ROOT>");
    } else {
        let first = spec_token(i)->Ok_0.0->Some_0;
        let parts = spec_resolve_tokens(chain.tokens, depth + 1, msg)->Some_0;
        assert(chain.tokens[0] == first);
        lemma_texts_of_tokens(chain.tokens, depth + 1, msg);
        if i[0] < 64 {
            lemma_label_not_empty(i);
        } else {
            let target = (i[0] as int % 64) * 256 + i[1] as int;
            assert(first == NameToken::Pointer(target as u16));
            lemma_name_not_empty(msg, msg.skip(target), (hops - 1) as nat, depth + 1);
        }
        lemma_join_not_empty(parts, seq!['.'], 0);
    }
}

/// The text that a chain holds after resolution from outside is not empty,
/// where the chain was read from bytes that start a name which holds a
/// text.
pub proof fn lemma_resolved_chain_not_empty(msg: Seq<u8>, i: Seq<u8>, hops: nat)
    requires
        leads_to_text(msg, i, hops),
        spec_chain(i) is Ok,
        spec_resolved(spec_chain(i)->Ok_0.0, 0, msg).name is Some,
    ensures
        spec_resolved(spec_chain(i)->Ok_0.0, 0, msg).name->Some_0.len() > 0,
{
    let chain = spec_chain(i)->Ok_0.0;
    if spec_resolve(chain, 0, msg) is Some {
        lemma_name_not_empty(msg, i, hops, 0);
    }
}

/// At the depth limit no chain has a text, resolved before or not.
pub proof fn lemma_depth_limit(chain: NameChain, depth: nat, msg: Seq<u8>)
    requires
        depth >= RESOLVE_NAME_RECURSION_MAX,
    ensures
        spec_resolve(chain, depth, msg) is None,
        spec_resolved(chain, depth, msg) == chain,
{
}

/// Resolution is idempotent: resolving the resolved chain once more, at the
/// same depth, gives the same text and the same chain. Where the first
/// resolution found a text, the second gives it back whatever the message:
/// it is read from the chain.
pub proof fn lemma_resolve_idempotent(chain: NameChain, depth: nat, msg: Seq<u8>, other: Seq<u8>)
    ensures
        spec_resolve(spec_resolved(chain, depth, msg), depth, msg) == spec_resolve(
            chain,
            depth,
            msg,
        ),
        spec_resolved(spec_resolved(chain, depth, msg), depth, msg) == spec_resolved(
            chain,
            depth,
            msg,
        ),
        spec_resolve(chain, depth, msg) is Some ==> spec_resolve(
            spec_resolved(chain, depth, msg),
            depth,
            other,
        ) == spec_resolve(chain, depth, msg),
{
}

/// Tokens of which one has no text have no texts.
pub proof fn lemma_token_without_text(tokens: Seq<NameToken>, k: int, depth: nat, msg: Seq<u8>)
    requires
        0 <= k < tokens.len(),
        spec_token_text(tokens[k], depth, msg) is None,
    ensures
        spec_resolve_tokens(tokens, depth, msg) is None,
{
    let prefix = tokens.take(k + 1);
    assert(prefix.last() == tokens[k]);
    lemma_prefix_without_text(tokens, k + 1, depth, msg);
}

/// A chain that was not resolved before and holds a pointer at or past the
/// end of the message has no text.
pub proof fn lemma_pointer_past_end(chain: NameChain, k: int, depth: nat, msg: Seq<u8>)
    requires
        chain.name is None,
        0 <= k < chain.tokens.len(),
        chain.tokens[k] is Pointer,
        chain.tokens[k]->Pointer_0 as int >= msg.len(),
    ensures
        spec_resolve(chain, depth, msg) is None,
{
    if depth < RESOLVE_NAME_RECURSION_MAX {
        lemma_token_without_text(chain.tokens, k, depth + 1, msg);
    }
}

/// The offset that the name at offset `from` sends resolution on to: the
/// name's bytes hold a chain that is not the root and ends in a pointer.
pub open spec fn next_pointer(msg: Seq<u8>, from: u16) -> Option<u16> {
    if from as int >= msg.len() {
        None
    } else {
        match spec_chain(msg.skip(from as int)) {
            Ok((chain, _)) => if chain.name is None && chain.tokens.len() > 0
                && chain.tokens.last() is Pointer {
                Some(chain.tokens.last()->Pointer_0)
            } else {
                None
            },
            Err(_) => None,
        }
    }
}

/// From offset `from`, `n` pointers in a row can be followed.
pub open spec fn pointer_run(msg: Seq<u8>, from: u16, n: nat) -> bool
    decreases n,
{
    n == 0 || match next_pointer(msg, from) {
        Some(to) => pointer_run(msg, to, (n - 1) as nat),
        None => false,
    }
}

proof fn lemma_run_exhausts_depth(msg: Seq<u8>, from: u16, n: nat, depth: nat)
    requires
        pointer_run(msg, from, n),
        depth + n >= RESOLVE_NAME_RECURSION_MAX,
    ensures
        spec_token_text(NameToken::Pointer(from), depth, msg) is None,
    decreases n,
{
    if n > 0 && depth < RESOLVE_NAME_RECURSION_MAX {
        let chain = spec_chain(msg.skip(from as int))->Ok_0.0;
        let to = next_pointer(msg, from)->Some_0;
        lemma_run_exhausts_depth(msg, to, (n - 1) as nat, depth + 1);
        lemma_token_without_text(chain.tokens, chain.tokens.len() - 1, depth + 1, msg);
    }
}

/// A chain that was not resolved before has no text if one of its pointers
/// starts a run of pointers that reaches the depth limit.
pub proof fn lemma_deep_run_has_no_text(
    chain: NameChain,
    k: int,
    depth: nat,
    msg: Seq<u8>,
    n: nat,
)
    requires
        chain.name is None,
        0 <= k < chain.tokens.len(),
        chain.tokens[k] is Pointer,
        pointer_run(msg, chain.tokens[k]->Pointer_0, n),
        depth + 1 + n >= RESOLVE_NAME_RECURSION_MAX,
    ensures
        spec_resolve(chain, depth, msg) is None,
{
    if depth < RESOLVE_NAME_RECURSION_MAX {
        lemma_run_exhausts_depth(msg, chain.tokens[k]->Pointer_0, n, depth + 1);
        lemma_token_without_text(chain.tokens, k, depth + 1, msg);
    }
}

proof fn lemma_cycle_runs_forever(msg: Seq<u8>, x: u16, y: u16, n: nat)
    requires
        next_pointer(msg, x) == Some(y),
        next_pointer(msg, y) == Some(x),
    ensures
        pointer_run(msg, x, n),
    decreases n,
{
    if n > 0 {
        lemma_cycle_runs_forever(msg, y, x, (n - 1) as nat);
    }
}

/// A pointer cycle has no text: where the name at `x` sends resolution on to
/// `y` and the name at `y` sends it back to `x`, a chain that was not
/// resolved before and holds a pointer to `x` has no text, at any depth.
pub proof fn lemma_pointer_cycle_has_no_text(
    chain: NameChain,
    k: int,
    depth: nat,
    msg: Seq<u8>,
    x: u16,
    y: u16,
)
    requires
        chain.name is None,
        0 <= k < chain.tokens.len(),
        chain.tokens[k] == NameToken::Pointer(x),
        next_pointer(msg, x) == Some(y),
        next_pointer(msg, y) == Some(x),
    ensures
        spec_resolve(chain, depth, msg) is None,
{
    lemma_cycle_runs_forever(msg, x, y, RESOLVE_NAME_RECURSION_MAX as nat);
    lemma_deep_run_has_no_text(chain, k, depth, msg, RESOLVE_NAME_RECURSION_MAX as nat);
}

} // verus!
