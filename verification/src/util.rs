//! Resolving the context items that a handler declared.
//!
//! A handler is invoked only when every item that it declared can be
//! resolved: where the state store holds no value under a declared type key,
//! the resolution fails and the handler is not invoked.

use crate::bot::Bot;
use crate::registry::ParamKind;
use crate::state::TypeKey;
use crate::wrap::{MsgContent, State};
use vstd::prelude::*;

verus! {

/// A resolved context item.
#[derive(Debug, PartialEq, Eq)]
pub enum Param<V: Send + Sync> {
    /// The bot itself: whoever invokes the handler passes its reference on.
    Bot,
    /// The payload of the command message.
    MsgContent(MsgContent),
    /// A snapshot of a value of the state store.
    State(State<V>),
}

/// Whether `store` holds a value for every state item among `kinds`.
pub open spec fn resolvable<V>(store: Map<TypeKey, V>, kinds: Seq<ParamKind>) -> bool {
    forall|i: int|
        0 <= i < kinds.len() ==> ((#[trigger] kinds[i]) matches ParamKind::State(key)
            ==> store.contains_key(key))
}

/// Whether `param` is what `kind` resolves to, given the store and the
/// payload of the message.
pub open spec fn param_fits<V: Clone + Send + Sync>(
    store: Map<TypeKey, V>,
    payload: Seq<char>,
    kind: ParamKind,
    param: Param<V>,
) -> bool {
    match kind {
        ParamKind::Bot => param is Bot,
        ParamKind::MsgContent => param matches Param::MsgContent(text) && text@ == payload,
        ParamKind::State(key) => store.contains_key(key) && (param matches Param::State(snapshot)
            && cloned(store[key], snapshot@)),
    }
}

/// Whether `params` are what `kinds` resolve to, one for one and in order.
pub open spec fn params_fit<V: Clone + Send + Sync>(
    store: Map<TypeKey, V>,
    payload: Seq<char>,
    kinds: Seq<ParamKind>,
    params: Seq<Param<V>>,
) -> bool {
    &&& params.len() == kinds.len()
    &&& forall|i: int|
        0 <= i < kinds.len() ==> param_fits(store, payload, #[trigger] kinds[i], params[i])
}

/// The context of one command occurrence: the bot and the payload of the
/// message.
pub struct HandlerParamMatcher<'a, C, H, V> {
    /// The bot that received the message.
    pub bot: &'a Bot<C, H, V>,
    /// The text that follows the command token.
    pub msg_content: &'a str,
}

/// Resolves a context item of the type `T`.
pub trait GetParam<T> {
    /// Whether `item` is what the resolution yields.
    spec fn resolves_to(&self, item: Option<T>) -> bool;

    /// The item, or `None` where it cannot be resolved.
    fn get(&self) -> (r: Option<T>)
        ensures
            self.resolves_to(r),
    ;
}

impl<'a, C, H, V> GetParam<&'a Bot<C, H, V>> for HandlerParamMatcher<'a, C, H, V> {
    open spec fn resolves_to(&self, item: Option<&'a Bot<C, H, V>>) -> bool {
        item == Some(self.bot)
    }

    fn get(&self) -> Option<&'a Bot<C, H, V>> {
        Some(self.bot)
    }
}

impl<'a, C, H, V> GetParam<MsgContent> for HandlerParamMatcher<'a, C, H, V> {
    open spec fn resolves_to(&self, item: Option<MsgContent>) -> bool {
        item matches Some(text) && text@ == self.msg_content@
    }

    fn get(&self) -> Option<MsgContent> {
        Some(MsgContent(self.msg_content.to_owned()))
    }
}

impl<'a, C, H, V: Clone + Send + Sync> HandlerParamMatcher<'a, C, H, V> {
    /// A snapshot of the value that the state store holds under `key`.
    pub fn state(&self, key: TypeKey) -> (r: Option<State<V>>)
        ensures
            match r {
                Some(snapshot) => self.bot.store().contains_key(key) && cloned(
                    self.bot.store()[key],
                    snapshot@,
                ),
                None => !self.bot.store().contains_key(key),
            },
    {
        self.bot.state().snapshot(key)
    }

    /// Resolves one declared item.
    pub fn resolve(&self, kind: ParamKind) -> (r: Option<Param<V>>)
        ensures
            match r {
                Some(param) => param_fits(self.bot.store(), self.msg_content@, kind, param),
                None => kind matches ParamKind::State(key) && !self.bot.store().contains_key(key),
            },
    {
        match kind {
            ParamKind::Bot => Some(Param::Bot),
            ParamKind::MsgContent => {
                let text: Option<MsgContent> = self.get();
                match text {
                    Some(text) => Some(Param::MsgContent(text)),
                    None => None,
                }
            },
            ParamKind::State(key) => match self.state(key) {
                Some(snapshot) => Some(Param::State(snapshot)),
                None => None,
            },
        }
    }

    /// Resolves the declared items, in their order.
    ///
    /// Returns `None` where the state store holds no value for one of them.
    pub fn resolve_all(&self, kinds: &Vec<ParamKind>) -> (r: Option<Vec<Param<V>>>)
        ensures
            match r {
                Some(params) => resolvable(self.bot.store(), kinds@) && params_fit(
                    self.bot.store(),
                    self.msg_content@,
                    kinds@,
                    params@,
                ),
                None => !resolvable(self.bot.store(), kinds@),
            },
    {
        let mut params: Vec<Param<V>> = Vec::new();
        let mut i: usize = 0;
        while i < kinds.len()
            invariant
                i <= kinds.len(),
                params@.len() == i,
                resolvable(self.bot.store(), kinds@.take(i as int)),
                forall|j: int|
                    0 <= j < i ==> param_fits(
                        self.bot.store(),
                        self.msg_content@,
                        #[trigger] kinds@[j],
                        params@[j],
                    ),
            decreases kinds.len() - i,
        {
            match self.resolve(kinds[i]) {
                Some(param) => {
                    params.push(param);
                },
                None => {
                    return None;
                },
            }
            proof {
                let longer = kinds@.take(i + 1);
                assert forall|j: int| 0 <= j < longer.len() implies (
                (#[trigger] longer[j]) matches ParamKind::State(key)
                    ==> self.bot.store().contains_key(key)) by {
                    if j < i {
                        assert(kinds@.take(i as int)[j] == longer[j]);
                    }
                }
            }
            i += 1;
        }
        assert(kinds@.take(i as int) == kinds@);
        Some(params)
    }
}

} // verus!
