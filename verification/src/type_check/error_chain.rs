//! Why a type does not fit.

use vstd::prelude::*;
use vstd::string::*;

use crate::types::{KeyTy, LuaMemberKey, LuaType, Ty};

verus! {

/// Which limit stopped a comparison.
#[derive(Debug, Clone, Copy, PartialEq, Eq, Structural)]
pub enum OverflowKind {
    Budget,
    Recursion,
}

/// The members that a type lacks.
#[derive(Debug, PartialEq)]
pub struct MissingMembersMessage {
    pub source: LuaType,
    pub target: LuaType,
    pub keys: Vec<LuaMemberKey>,
}

/// One step of the reason why a type does not fit.
#[derive(Debug, PartialEq)]
pub enum ChainMessage {
    NotAssignable { source: LuaType, target: LuaType },
    Field { name: String },
    Property { key: LuaMemberKey },
    IndexKey { key_type: LuaType },
    MissingMembers(MissingMembersMessage),
    FunctionParameter { index: usize },
    TupleElement { index: usize },
    MissingTupleElement { index: usize },
    ArrayElement,
    GenericArgument { index: usize },
    TooFewElements { count: usize },
}

/// The steps of a reason, the outermost first.
#[derive(Debug, PartialEq)]
pub struct ErrorChain {
    pub message: ChainMessage,
    pub next: Option<Box<ErrorChain>>,
}

pub enum MessageTy {
    NotAssignable { source: Ty, target: Ty },
    Field { name: Seq<char> },
    Property { key: KeyTy },
    IndexKey { key_type: Ty },
    MissingMembers { source: Ty, target: Ty, keys: Seq<KeyTy> },
    FunctionParameter { index: usize },
    TupleElement { index: usize },
    MissingTupleElement { index: usize },
    ArrayElement,
    GenericArgument { index: usize },
    TooFewElements { count: usize },
}

pub open spec fn keys_ty(keys: Seq<LuaMemberKey>) -> Seq<KeyTy> {
    Seq::new(keys.len(), |i: int| keys[i]@)
}

impl View for ChainMessage {
    type V = MessageTy;

    open spec fn view(&self) -> MessageTy {
        match self {
            ChainMessage::NotAssignable { source, target } => MessageTy::NotAssignable {
                source: source@,
                target: target@,
            },
            ChainMessage::Field { name } => MessageTy::Field { name: name@ },
            ChainMessage::Property { key } => MessageTy::Property { key: key@ },
            ChainMessage::IndexKey { key_type } => MessageTy::IndexKey { key_type: key_type@ },
            ChainMessage::MissingMembers(m) => MessageTy::MissingMembers {
                source: m.source@,
                target: m.target@,
                keys: keys_ty(m.keys@),
            },
            ChainMessage::FunctionParameter { index } => MessageTy::FunctionParameter {
                index: *index,
            },
            ChainMessage::TupleElement { index } => MessageTy::TupleElement { index: *index },
            ChainMessage::MissingTupleElement { index } => MessageTy::MissingTupleElement {
                index: *index,
            },
            ChainMessage::ArrayElement => MessageTy::ArrayElement,
            ChainMessage::GenericArgument { index } => MessageTy::GenericArgument { index: *index },
            ChainMessage::TooFewElements { count } => MessageTy::TooFewElements { count: *count },
        }
    }
}

/// The messages of a chain, the outermost first.
pub open spec fn chain_messages(chain: ErrorChain) -> Seq<MessageTy>
    decreases chain,
{
    seq![chain.message@] + match chain.next {
        Some(next) => chain_messages(*next),
        None => Seq::empty(),
    }
}

/// The first message of a chain and the rest of it.
proof fn lemma_chain_parts(chain: ErrorChain)
    ensures
        chain@.len() > 0,
        chain@[0] == chain.message@,
        chain@.skip(1) == (match chain.next {
            Some(next) => chain_messages(*next),
            None => Seq::empty(),
        }),
{
    let rest = match chain.next {
        Some(next) => chain_messages(*next),
        None => Seq::empty(),
    };
    assert(chain@ == seq![chain.message@] + rest);
    assert(chain@.skip(1) =~= rest);
}

impl View for ErrorChain {
    type V = Seq<MessageTy>;

    open spec fn view(&self) -> Seq<MessageTy> {
        chain_messages(*self)
    }
}

pub open spec fn opt_chain(chain: Option<ErrorChain>) -> Seq<MessageTy> {
    match chain {
        Some(chain) => chain@,
        None => Seq::empty(),
    }
}

/// The chain with one more message in front. The name of a field in front of the name of a field
/// inside it makes one path.
pub open spec fn pushed(chain: Seq<MessageTy>, message: MessageTy) -> Seq<MessageTy> {
    if chain.len() > 0 {
        match (message, chain[0]) {
            (MessageTy::Field { name: outer }, MessageTy::Field { name: inner }) => seq![
                MessageTy::Field { name: outer + "."@ + inner },
            ] + chain.skip(1),
            _ => seq![message] + chain,
        }
    } else {
        seq![message]
    }
}

impl ErrorChain {
    pub fn message(&self) -> (r: &ChainMessage)
        ensures
            r@ == self@[0],
    {
        &self.message
    }

    pub fn next(&self) -> (r: Option<&ErrorChain>)
        ensures
            (match r {
                Some(next) => next@,
                None => Seq::empty(),
            }) == self@.skip(1),
    {
        proof {
            lemma_chain_parts(*self);
        }
        match &self.next {
            Some(next) => Some(&**next),
            None => None,
        }
    }
}

/// A chain of one message in front of another chain.
pub fn chain_node(message: ChainMessage, next: Option<ErrorChain>) -> (r: ErrorChain)
    ensures
        r@ == seq![message@] + opt_chain(next),
{
    match next {
        Some(next) => ErrorChain { message, next: Some(Box::new(next)) },
        None => ErrorChain { message, next: None },
    }
}

/// Puts a message in front of a chain.
pub fn push_message(head: Option<ErrorChain>, message: ChainMessage) -> (r: ErrorChain)
    ensures
        r@ == pushed(opt_chain(head), message@),
{
    match head {
        Some(chain) => {
            let ghost all = chain@;
            proof {
                lemma_chain_parts(chain);
            }
            if let (ChainMessage::Field { name: outer }, ChainMessage::Field { name: inner }) = (
                &message,
                &chain.message,
            ) {
                let mut name = outer.clone();
                name.append(".");
                name.append(inner.as_str());
                let r = ErrorChain { message: ChainMessage::Field { name }, next: chain.next };
                assert(r@ =~= pushed(all, message@));
                return r;
            }
            chain_node(message, Some(chain))
        },
        None => {
            let r = chain_node(message, None);
            assert(r@ =~= seq![message@]);
            r
        },
    }
}

pub fn clone_keys(keys: &Vec<LuaMemberKey>) -> (r: Vec<LuaMemberKey>)
    ensures
        keys_ty(r@) == keys_ty(keys@),
{
    let mut r: Vec<LuaMemberKey> = Vec::new();
    let mut i: usize = 0;
    while i < keys.len()
        invariant
            i <= keys@.len(),
            r@.len() == i,
            forall|j: int| 0 <= j < i ==> (#[trigger] r@[j])@ == keys@[j]@,
        decreases keys@.len() - i,
    {
        r.push(keys[i].clone());
        i += 1;
    }
    assert(keys_ty(r@) =~= keys_ty(keys@));
    r
}

impl Clone for ChainMessage {
    fn clone(&self) -> (r: Self)
        ensures
            r@ == self@,
    {
        match self {
            ChainMessage::NotAssignable { source, target } => ChainMessage::NotAssignable {
                source: source.clone(),
                target: target.clone(),
            },
            ChainMessage::Field { name } => ChainMessage::Field { name: name.clone() },
            ChainMessage::Property { key } => ChainMessage::Property { key: key.clone() },
            ChainMessage::IndexKey { key_type } => ChainMessage::IndexKey { key_type: key_type.clone() },
            ChainMessage::MissingMembers(m) => ChainMessage::MissingMembers(
                MissingMembersMessage {
                    source: m.source.clone(),
                    target: m.target.clone(),
                    keys: clone_keys(&m.keys),
                },
            ),
            ChainMessage::FunctionParameter { index } => ChainMessage::FunctionParameter {
                index: *index,
            },
            ChainMessage::TupleElement { index } => ChainMessage::TupleElement { index: *index },
            ChainMessage::MissingTupleElement { index } => ChainMessage::MissingTupleElement {
                index: *index,
            },
            ChainMessage::ArrayElement => ChainMessage::ArrayElement,
            ChainMessage::GenericArgument { index } => ChainMessage::GenericArgument {
                index: *index,
            },
            ChainMessage::TooFewElements { count } => ChainMessage::TooFewElements {
                count: *count,
            },
        }
    }
}

impl Clone for ErrorChain {
    fn clone(&self) -> (r: Self)
        ensures
            r@ == self@,
        decreases self,
    {
        match &self.next {
            Some(next) => {
                let rest: ErrorChain = (&**next).clone();
                ErrorChain { message: self.message.clone(), next: Some(Box::new(rest)) }
            },
            None => ErrorChain { message: self.message.clone(), next: None },
        }
    }
}

/// The name of a field, or the key of a member without a name.
pub open spec fn property_msg(key: KeyTy) -> MessageTy {
    match key {
        KeyTy::Name(name) => MessageTy::Field { name },
        _ => MessageTy::Property { key },
    }
}

pub fn property_message(key: &LuaMemberKey) -> (r: ChainMessage)
    ensures
        r@ == property_msg(key@),
{
    match key {
        LuaMemberKey::Name(name) => ChainMessage::Field { name: name.clone() },
        _ => ChainMessage::Property { key: key.clone() },
    }
}

pub fn not_assignable_message(source: &LuaType, target: &LuaType) -> (r: ChainMessage)
    ensures
        r@ == (MessageTy::NotAssignable { source: source@, target: target@ }),
{
    ChainMessage::NotAssignable { source: source.clone(), target: target.clone() }
}

pub fn index_message(key: &LuaType) -> (r: ChainMessage)
    ensures
        r@ == (MessageTy::IndexKey { key_type: key@ }),
{
    ChainMessage::IndexKey { key_type: key.clone() }
}

pub fn missing_members_message(
    source: &LuaType,
    target: &LuaType,
    keys: &Vec<LuaMemberKey>,
) -> (r: ChainMessage)
    ensures
        r@ == (MessageTy::MissingMembers {
            source: source@,
            target: target@,
            keys: keys_ty(keys@),
        }),
{
    ChainMessage::MissingMembers(
        MissingMembersMessage {
            source: source.clone(),
            target: target.clone(),
            keys: clone_keys(keys),
        },
    )
}

} // verus!
