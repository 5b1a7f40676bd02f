//! Domain names as they stand on the wire: labels and back-references.
//!
//! A name is a run of length-prefixed labels that ends at a zero byte or at a
//! pointer, which names an offset in the message where the name goes on.
//! Reading the tokens needs only the bytes at hand; turning them into text
//! needs the whole message.

use crate::parse::dns::text::{join_dots, join_with_dots, texts};
use crate::parse::dns::wire::{be_u8, take, DecodeError};
use vstd::prelude::*;
use vstd::slice::slice_subrange;
use vstd::string::StringExecFns;
use vstd::utf8::{decode_utf8, valid_utf8};

verus! {

/// How deep resolution follows pointers.
pub const RESOLVE_NAME_RECURSION_MAX: usize = 10;

/// How many tokens one chain may hold.
pub const CHAIN_TOKEN_MAX: usize = 100;

/// One token of a name on the wire.
#[derive(Clone, Copy, Debug, PartialEq)]
pub enum CompressedName<'a> {
    Label(&'a str),
    Pointer(u16),
}

/// A token as a mathematical value.
pub enum NameToken {
    Label(Seq<char>),
    Pointer(u16),
}

impl<'a> View for CompressedName<'a> {
    type V = NameToken;

    open spec fn view(&self) -> NameToken {
        match *self {
            CompressedName::Label(s) => NameToken::Label(s@),
            CompressedName::Pointer(offs) => NameToken::Pointer(offs),
        }
    }
}

/// The view of a token that may be absent.
pub open spec fn token_view(t: Option<CompressedName>) -> Option<NameToken> {
    match t {
        Some(t) => Some(t@),
        None => None,
    }
}

/// The view of a text that may be absent.
pub open spec fn text_view(t: Option<String>) -> Option<Seq<char>> {
    match t {
        Some(s) => Some(s@),
        None => None,
    }
}

/// A chain as a mathematical value: the text, once known, and the tokens.
pub struct NameChain {
    pub name: Option<Seq<char>>,
    pub tokens: Seq<NameToken>,
}

/// The tokens of one name, and its text once it has been resolved.
#[derive(Clone, Debug, PartialEq)]
pub struct CompressedNameChain<'a> {
    pub name: Option<String>,
    pub tokens: Vec<CompressedName<'a>>,
}

impl<'a> View for CompressedNameChain<'a> {
    type V = NameChain;

    open spec fn view(&self) -> NameChain {
        NameChain {
            name: text_view(self.name),
            tokens: self.tokens@.map_values(|t: CompressedName| t@),
        }
    }
}

/// What the token at the front of `i` is, and how many bytes it takes.
///
/// A zero byte, and a byte whose top two bits are neither `00` nor `11`, end
/// the name and give no token.
pub open spec fn spec_token(i: Seq<u8>) -> Result<(Option<NameToken>, int), DecodeError> {
    if i.len() < 1 {
        Err(DecodeError::Incomplete(1))
    } else {
        let kind = i[0] as int / 64;
        let len = i[0] as int % 64;
        if kind == 0 {
            if len == 0 {
                Ok((None, 1))
            } else if i.len() < 1 + len {
                Err(DecodeError::Incomplete(len as usize))
            } else if !valid_utf8(i.subrange(1, 1 + len)) {
                Err(DecodeError::InvalidLabel)
            } else {
                Ok((Some(NameToken::Label(decode_utf8(i.subrange(1, 1 + len)))), 1 + len))
            }
        } else if kind == 3 {
            if i.len() < 2 {
                Err(DecodeError::Incomplete(1))
            } else {
                Ok((Some(NameToken::Pointer((len * 256 + i[1] as int) as u16)), 2))
            }
        } else {
            Ok((None, 1))
        }
    }
}

/// The tokens at the front of `i`, at most `budget` of them, and the bytes
/// they take. Collection ends after a pointer and at a byte that gives no
/// token.
pub open spec fn spec_tokens(i: Seq<u8>, budget: nat) -> Result<(Seq<NameToken>, int), DecodeError>
    decreases budget,
{
    if budget == 0 {
        Ok((Seq::empty(), 0))
    } else {
        match spec_token(i) {
            Err(e) => Err(e),
            Ok((None, n)) => Ok((Seq::empty(), n)),
            Ok((Some(t), n)) => if t is Pointer {
                Ok((seq![t], n))
            } else {
                match spec_tokens(i.skip(n), (budget - 1) as nat) {
                    Err(e) => Err(e),
                    Ok((ts, m)) => Ok((seq![t] + ts, n + m)),
                }
            },
        }
    }
}

/// The bytes that tokens take lie within the input.
pub proof fn lemma_tokens_within(i: Seq<u8>, budget: nat)
    ensures
        spec_token(i) is Ok ==> 0 < spec_token(i)->Ok_0.1 <= i.len(),
        spec_tokens(i, budget) is Ok ==> 0 <= spec_tokens(i, budget)->Ok_0.1 <= i.len(),
        budget > 0 && spec_tokens(i, budget) is Ok ==> 0 < spec_tokens(i, budget)->Ok_0.1,
    decreases budget,
{
    if budget > 0 && spec_token(i) is Ok {
        lemma_tokens_within(i.skip(spec_token(i)->Ok_0.1), (budget - 1) as nat);
    }
}

/// The text that stands for the root name.
pub open spec fn root_text() -> Seq<char> {
    "<ROOT>"@
}

/// The chain at the front of `i`, and the bytes it takes.
pub open spec fn spec_chain(i: Seq<u8>) -> Result<(NameChain, int), DecodeError> {
    if i.len() == 0 {
        Err(DecodeError::Incomplete(1))
    } else if i[0] == 0 {
        Ok((NameChain { name: Some(root_text()), tokens: Seq::empty() }, 1))
    } else {
        match spec_tokens(i, CHAIN_TOKEN_MAX as nat) {
            Err(e) => Err(e),
            Ok((ts, n)) => Ok((NameChain { name: None, tokens: ts }, n)),
        }
    }
}

/// How many more levels resolution may descend from `depth`.
pub open spec fn levels_left(depth: nat) -> nat {
    if depth < RESOLVE_NAME_RECURSION_MAX {
        (RESOLVE_NAME_RECURSION_MAX - depth) as nat
    } else {
        0
    }
}

/// The text of a chain resolved at `depth` against the whole message.
///
/// At the depth limit there is none. A chain that was resolved before keeps
/// its text. Otherwise every token must give a text, and the texts are joined
/// with dots.
pub open spec fn spec_resolve(chain: NameChain, depth: nat, msg: Seq<u8>) -> Option<Seq<char>>
    decreases levels_left(depth), 0nat, 0nat,
{
    if depth >= RESOLVE_NAME_RECURSION_MAX {
        None
    } else if chain.name is Some {
        chain.name
    } else {
        match spec_resolve_tokens(chain.tokens, depth + 1, msg) {
            Some(parts) => Some(join_dots(parts)),
            None => None,
        }
    }
}

/// The texts of the tokens in order, or nothing if one of them has none.
pub open spec fn spec_resolve_tokens(tokens: Seq<NameToken>, depth: nat, msg: Seq<u8>) -> Option<
    Seq<Seq<char>>,
>
    decreases levels_left(depth), 2nat, tokens.len(),
{
    if tokens.len() == 0 {
        Some(Seq::empty())
    } else {
        match (
            spec_resolve_tokens(tokens.drop_last(), depth, msg),
            spec_token_text(tokens.last(), depth, msg),
        ) {
            (Some(parts), Some(part)) => Some(parts.push(part)),
            _ => None,
        }
    }
}

/// The text of one token: a label's own, and for a pointer that of the chain
/// read at its offset and resolved at `depth`. A pointer at or past the end
/// of the message, or to bytes that hold no chain, has none.
pub open spec fn spec_token_text(token: NameToken, depth: nat, msg: Seq<u8>) -> Option<Seq<char>>
    decreases levels_left(depth), 1nat, 0nat,
{
    match token {
        NameToken::Label(text) => Some(text),
        NameToken::Pointer(offs) => if offs as int >= msg.len() {
            None
        } else {
            match spec_chain(msg.skip(offs as int)) {
                Ok((chain, _)) => spec_resolve(chain, depth, msg),
                Err(_) => None,
            }
        },
    }
}

/// The chain after resolution at `depth`: it holds the text if there is one.
pub open spec fn spec_resolved(chain: NameChain, depth: nat, msg: Seq<u8>) -> NameChain {
    match spec_resolve(chain, depth, msg) {
        Some(text) => NameChain { name: Some(text), tokens: chain.tokens },
        None => chain,
    }
}

/// Where some prefix of the tokens has no texts, the tokens have none.
pub proof fn lemma_prefix_without_text(tokens: Seq<NameToken>, k: int, depth: nat, msg: Seq<u8>)
    requires
        0 <= k <= tokens.len(),
        spec_resolve_tokens(tokens.take(k), depth, msg) is None,
    ensures
        spec_resolve_tokens(tokens, depth, msg) is None,
    decreases tokens.len() - k,
{
    if k < tokens.len() {
        assert(tokens.take(k + 1).drop_last() =~= tokens.take(k));
        lemma_prefix_without_text(tokens, k + 1, depth, msg);
    } else {
        assert(tokens.take(k) =~= tokens);
    }
}

/// The bytes that a chain takes lie within the input.
pub proof fn lemma_chain_within(i: Seq<u8>)
    ensures
        spec_chain(i) is Ok ==> 0 < spec_chain(i)->Ok_0.1 <= i.len(),
{
    lemma_tokens_within(i, CHAIN_TOKEN_MAX as nat);
}

/// `std::str::from_utf8`: the text of `bytes` where they are well-formed
/// UTF-8, and nothing where they are not.
#[verifier::external_body]
fn str_from_utf8<'a>(bytes: &'a [u8]) -> (r: Option<&'a str>)
    ensures
        r is Some <==> valid_utf8(bytes@),
        r is Some ==> r->Some_0@ == decode_utf8(bytes@),
{
    std::str::from_utf8(bytes).ok()
}

/// Reads one token.
pub fn parse_compressed_token<'a>(i: &'a [u8]) -> (r: Result<
    (&'a [u8], Option<CompressedName<'a>>),
    DecodeError,
>)
    ensures
        (match spec_token(i@) {
            Ok((t, n)) => r is Ok && r->Ok_0.0@ == i@.skip(n) && token_view(r->Ok_0.1) == t,
            Err(e) => r is Err && r->Err_0 == e,
        }),
{
    let (rest, first) = match be_u8(i) {
        Ok(v) => v,
        Err(e) => {
            return Err(e);
        },
    };
    assert(i@.take(1).drop_last() =~= Seq::<u8>::empty());
    assert(first == i@[0]) by {
        reveal_with_fuel(crate::parse::dns::wire::be_value, 2);
    }
    let tt: u8 = (first & 0xc0) >> 6;
    let len: u8 = first & 0x3f;
    assert(tt == first / 64 && len == first % 64) by (bit_vector)
        requires
            tt == (first & 0xc0) >> 6,
            len == first & 0x3f,
    ;
    if tt == 0 {
        if len == 0 {
            Ok((rest, None))
        } else {
            let (after, bytes) = match take(rest, len as usize) {
                Ok(v) => v,
                Err(e) => {
                    return Err(e);
                },
            };
            assert(bytes@ =~= i@.subrange(1, 1 + len));
            assert(after@ =~= i@.skip(1 + len));
            (match str_from_utf8(bytes) {
                Some(name) => Ok((after, Some(CompressedName::Label(name)))),
                None => Err(DecodeError::InvalidLabel),
            })
        }
    } else if tt == 3 {
        let (after, low) = match be_u8(rest) {
            Ok(v) => v,
            Err(e) => {
                return Err(e);
            },
        };
        assert(rest@.take(1).drop_last() =~= Seq::<u8>::empty());
        assert(low == i@[1]) by {
            reveal_with_fuel(crate::parse::dns::wire::be_value, 2);
        }
        assert(after@ =~= i@.skip(2));
        let offs: u16 = ((len as u16) << 8) | (low as u16);
        assert(offs == len * 256 + low) by (bit_vector)
            requires
                offs == ((len as u16) << 8) | (low as u16),
                len < 64,
        ;
        Ok((after, Some(CompressedName::Pointer(offs))))
    } else {
        Ok((rest, None))
    }
}

/// Puts tokens already read in front of what the rest of the input gives.
spec fn spec_prepend(
    done: Seq<NameToken>,
    used: int,
    rest: Result<(Seq<NameToken>, int), DecodeError>,
) -> Result<(Seq<NameToken>, int), DecodeError> {
    (match rest {
        Err(e) => Err(e),
        Ok((ts, m)) => Ok((done + ts, used + m)),
    })
}

impl<'a> CompressedNameChain<'a> {
    /// Resolves the chain to text and remembers the text.
    ///
    /// `recursion` is the depth of this call: 0 from outside, one more for
    /// each pointer followed.
    pub fn resolve_name(&mut self, recursion: usize, full_dns_message: &[u8]) -> (r: &Option<
        String,
    >)
        ensures
            text_view(*r) == spec_resolve(old(self)@, recursion as nat, full_dns_message@),
            final(self)@ == spec_resolved(old(self)@, recursion as nat, full_dns_message@),
        decreases levels_left(recursion as nat),
    {
        if recursion >= RESOLVE_NAME_RECURSION_MAX {
            return &None;
        }
        let depth: usize = recursion + 1;
        if self.name.is_some() {
            return &self.name;
        }
        let ghost all = self@.tokens;
        let mut values: Vec<String> = Vec::new();
        let mut k: usize = 0;
        assert(all.take(0) =~= Seq::<NameToken>::empty());
        assert(texts(values@) =~= Seq::<Seq<char>>::empty());
        while k < self.tokens.len()
            invariant
                k <= self.tokens.len(),
                *self == *old(self),
                self.name is None,
                all == self@.tokens,
                all.len() == self.tokens.len(),
                depth == recursion + 1,
                recursion < RESOLVE_NAME_RECURSION_MAX,
                spec_resolve_tokens(all.take(k as int), depth as nat, full_dns_message@) == Some(
                    texts(values@),
                ),
            decreases self.tokens.len() - k,
        {
            let ghost before = texts(values@);
            proof {
                assert(all.take(k + 1).drop_last() =~= all.take(k as int));
                assert(all.take(k + 1).last() == self.tokens@[k as int]@);
            }
            let part: Option<String> = match self.tokens[k] {
                CompressedName::Label(name) => Some(String::from_str(name)),
                CompressedName::Pointer(offs) => {
                    let offs: usize = offs as usize;
                    if offs >= full_dns_message.len() {
                        None
                    } else {
                        match parse_compressed_chain(
                            slice_subrange(full_dns_message, offs, full_dns_message.len()),
                        ) {
                            Ok((_, mut name_chain)) => {
                                match name_chain.resolve_name(depth, full_dns_message) {
                                    Some(full_name) => Some(full_name.clone()),
                                    None => None,
                                }
                            },
                            Err(_) => None,
                        }
                    }
                },
            };
            assert(text_view(part) == spec_token_text(
                all[k as int],
                depth as nat,
                full_dns_message@,
            ));
            match part {
                Some(text) => {
                    values.push(text);
                    assert(texts(values@) =~= before.push(text@));
                },
                None => {
                    proof {
                        lemma_prefix_without_text(all, k + 1, depth as nat, full_dns_message@);
                    }
                    return &None;
                },
            }
            k = k + 1;
        }
        assert(all.take(k as int) =~= all);
        self.name = Some(join_with_dots(&values));
        &self.name
    }

    /// Appends a token.
    pub fn push(&mut self, val: CompressedName<'a>)
        ensures
            final(self)@ == (NameChain {
                name: old(self)@.name,
                tokens: old(self)@.tokens.push(val@),
            }),
    {
        self.tokens.push(val);
        assert(self.tokens@.map_values(|t: CompressedName| t@) =~= old(self).tokens@.map_values(
            |t: CompressedName| t@,
        ).push(val@));
    }
}

impl<'a> Default for CompressedNameChain<'a> {
    /// The chain with no tokens and no text.
    fn default() -> (r: Self)
        ensures
            r@ == (NameChain { name: None, tokens: Seq::empty() }),
    {
        let r = CompressedNameChain { name: None, tokens: Vec::new() };
        assert(r.tokens@.map_values(|t: CompressedName| t@) =~= Seq::<NameToken>::empty());
        r
    }
}

/// Reads one name: its tokens up to the end of the name, a pointer, or the
/// hundredth token. A name that starts with the zero byte is the root, and
/// comes out resolved.
pub fn parse_compressed_chain<'a>(i: &'a [u8]) -> (r: Result<
    (&'a [u8], CompressedNameChain<'a>),
    DecodeError,
>)
    ensures
        (match spec_chain(i@) {
            Ok((c, n)) => r is Ok && r->Ok_0.0@ == i@.skip(n) && r->Ok_0.1@ == c,
            Err(e) => r is Err && r->Err_0 == e,
        }),
{
    let mut names = CompressedNameChain::default();
    if i.len() == 0 {
        return Err(DecodeError::Incomplete(1));
    }
    if i[0] == 0u8 {
        let (rest, _) = match take(i, 1) {
            Ok(v) => v,
            Err(e) => {
                return Err(e);
            },
        };
        names.name = Some(String::from_str("<ROOT>"));
        return Ok((rest, names));
    }
    let mut rest = i;
    let mut round: usize = 0;
    let ghost mut used: int = 0;
    assert(i@.skip(0) =~= i@);
    while round < CHAIN_TOKEN_MAX
        invariant
            round <= CHAIN_TOKEN_MAX,
            i@.len() > 0,
            i@[0] != 0,
            0 <= used <= i@.len(),
            rest@ == i@.skip(used),
            names@.name is None,
            spec_tokens(i@, CHAIN_TOKEN_MAX as nat) == spec_prepend(
                names@.tokens,
                used,
                spec_tokens(rest@, (CHAIN_TOKEN_MAX - round) as nat),
            ),
        decreases CHAIN_TOKEN_MAX - round,
    {
        let ghost before = names@.tokens;
        let (after, name) = match parse_compressed_token(rest) {
            Ok(v) => v,
            Err(e) => {
                return Err(e);
            },
        };
        let ghost step = spec_token(rest@)->Ok_0.1;
        assert(after@ =~= i@.skip(used + step));
        match name {
            Some(value) => {
                names.push(value);
                assert(before + seq![value@] =~= names@.tokens);
                if let CompressedName::Pointer(_) = value {
                    return Ok((after, names));
                }
                assert forall|ts: Seq<NameToken>| before + (seq![value@] + ts) == names@.tokens + ts by {
                    assert(before + (seq![value@] + ts) =~= names@.tokens + ts);
                }
            },
            None => {
                assert(before + Seq::<NameToken>::empty() =~= before);
                return Ok((after, names));
            },
        }
        rest = after;
        round = round + 1;
        proof {
            used = used + step;
        }
    }
    assert(names@.tokens + Seq::<NameToken>::empty() =~= names@.tokens);
    Ok((rest, names))
}

} // verus!
