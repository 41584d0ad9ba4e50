//! The command registry: which handler each command name is bound to.

use crate::assoc::{
    distinct_keys, entries_map, has_key, lemma_entry_at, lemma_no_entries, lemma_push_entry,
    position_of,
};
use crate::state::TypeKey;
use vstd::prelude::*;
use vstd::string::StringExecFns;

verus! {

/// A kind of context item that a handler can ask for.
#[derive(Clone, Copy, Debug, PartialEq, Eq, Structural)]
pub enum ParamKind {
    /// The bot itself.
    Bot,
    /// The payload of the command message.
    MsgContent,
    /// A snapshot of the value that the state store holds under a type key.
    State(TypeKey),
}

/// What the registry asks of a handler when it is registered.
pub trait CommandHandler {
    /// The command names that the handler answers to.
    fn commands(&self) -> Vec<String>;

    /// The context items that the handler needs, in the order in which it
    /// takes them.
    fn params(&self) -> Vec<ParamKind>;
}

/// A command name could not be bound because it was bound already.
#[derive(Debug, PartialEq, Eq)]
pub struct DuplicateCommand {
    /// The name that was bound already.
    pub command: String,
}

impl DuplicateCommand {
    /// The message of the error; it names the command.
    pub fn message(&self) -> (r: String)
        ensures
            r@ == "ruma_bot: Tried to register a command handler for '"@ + self.command@
                + "' when one was already registered"@,
    {
        let mut text = "ruma_bot: Tried to register a command handler for '".to_owned();
        text.append(self.command.as_str());
        text.append("' when one was already registered");
        text
    }
}

/// The model of a registry.
pub struct RegistryView<H> {
    /// The position, in `handlers`, of the handler that each bound name
    /// belongs to.
    pub bindings: Map<Seq<char>, int>,
    /// The registered handlers, in the order of their registration.
    pub handlers: Seq<H>,
    /// The context items that each handler declared.
    pub params: Seq<Seq<ParamKind>>,
}

/// Whether the name at `i` cannot be bound: it is bound in `bindings`, or
/// stands in `names` before `i` too.
pub open spec fn clashes_at(
    bindings: Map<Seq<char>, int>,
    names: Seq<Seq<char>>,
    i: int,
) -> bool {
    bindings.contains_key(names[i]) || names.take(i).contains(names[i])
}

/// Whether every name of `names` can be bound.
pub open spec fn clash_free(bindings: Map<Seq<char>, int>, names: Seq<Seq<char>>) -> bool {
    forall|i: int| 0 <= i < names.len() ==> !clashes_at(bindings, names, i)
}

/// Whether `i` is the first position of `names` that cannot be bound.
pub open spec fn is_first_clash(
    bindings: Map<Seq<char>, int>,
    names: Seq<Seq<char>>,
    i: int,
) -> bool {
    &&& 0 <= i < names.len()
    &&& clashes_at(bindings, names, i)
    &&& clash_free(bindings, names.take(i))
}

/// `bindings` with every name of `names` bound to `id`.
pub open spec fn bind_all(bindings: Map<Seq<char>, int>, names: Seq<Seq<char>>, id: int) -> Map<
    Seq<char>,
    int,
> {
    Map::new(
        |n: Seq<char>| bindings.contains_key(n) || names.contains(n),
        |n: Seq<char>|
            if names.contains(n) {
                id
            } else {
                bindings[n]
            },
    )
}

impl<H> RegistryView<H> {
    /// The registry without handlers.
    pub open spec fn empty() -> Self {
        RegistryView { bindings: Map::empty(), handlers: Seq::empty(), params: Seq::empty() }
    }

    /// The registry after `handler` was added under `names`.
    pub open spec fn with_handler(
        self,
        names: Seq<Seq<char>>,
        params: Seq<ParamKind>,
        handler: H,
    ) -> Self {
        RegistryView {
            bindings: bind_all(self.bindings, names, self.handlers.len() as int),
            handlers: self.handlers.push(handler),
            params: self.params.push(params),
        }
    }
}

/// What a handler declares when it is registered.
pub struct Declaration<H> {
    /// The command names that the handler answers to.
    pub names: Seq<Seq<char>>,
    /// The context items that the handler needs.
    pub params: Seq<ParamKind>,
    /// The handler.
    pub handler: H,
}

impl<H> RegistryView<H> {
    /// The registry after `declared` was registered, or `None` where one of
    /// its names cannot be bound.
    pub open spec fn register(self, declared: Declaration<H>) -> Option<Self> {
        if clash_free(self.bindings, declared.names) {
            Some(self.with_handler(declared.names, declared.params, declared.handler))
        } else {
            None
        }
    }

    /// The registry after the handlers of `declared` were registered one
    /// after the other, or `None` where one of the registrations fails.
    pub open spec fn register_all(self, declared: Seq<Declaration<H>>) -> Option<Self>
        decreases declared.len(),
    {
        if declared.len() == 0 {
            Some(self)
        } else {
            match self.register_all(declared.drop_last()) {
                Some(registry) => registry.register(declared.last()),
                None => None,
            }
        }
    }
}

/// Whether `outcome` is what becomes of the registration of `declared`: the
/// registry with the handler added, or the first of its names that cannot
/// be bound.
pub open spec fn registered<H>(
    before: RegistryView<H>,
    declared: Declaration<H>,
    outcome: Result<RegistryView<H>, Seq<char>>,
) -> bool {
    match outcome {
        Ok(registry) => before.register(declared) == Some(registry),
        Err(command) => before.register(declared) is None && exists|i: int| #[trigger]
            is_first_clash(before.bindings, declared.names, i) && command == declared.names[i],
    }
}

/// The outcome of a registration as a model.
pub open spec fn outcome_view<H>(r: Result<CommandRegistry<H>, DuplicateCommand>) -> Result<
    RegistryView<H>,
    Seq<char>,
> {
    match r {
        Ok(registry) => Ok(registry@),
        Err(e) => Err(e.command@),
    }
}

/// Binds command names to handlers; no name is bound twice.
pub struct CommandRegistry<H> {
    bindings: Vec<(String, usize)>,
    handlers: Vec<(H, Vec<ParamKind>)>,
}

/// The binding entries as name views and handler positions.
pub open spec fn binding_entries(bindings: Seq<(String, usize)>) -> Seq<(Seq<char>, int)> {
    Seq::new(bindings.len(), |i: int| (bindings[i].0@, bindings[i].1 as int))
}

impl<H> View for CommandRegistry<H> {
    type V = RegistryView<H>;

    closed spec fn view(&self) -> RegistryView<H> {
        RegistryView {
            bindings: entries_map(binding_entries(self.bindings@)),
            handlers: Seq::new(self.handlers@.len(), |i: int| self.handlers@[i].0),
            params: Seq::new(self.handlers@.len(), |i: int| self.handlers@[i].1@),
        }
    }
}

impl<H> CommandRegistry<H> {
    #[verifier::type_invariant]
    spec fn inv(self) -> bool {
        &&& distinct_keys(binding_entries(self.bindings@))
        &&& forall|i: int|
            0 <= i < self.bindings@.len() ==> (#[trigger] self.bindings@[i]).1
                < self.handlers@.len()
    }

    /// A registry without handlers.
    pub fn new() -> (r: Self)
        ensures
            r@ == RegistryView::<H>::empty(),
    {
        let r = CommandRegistry { bindings: Vec::new(), handlers: Vec::new() };
        proof {
            lemma_no_entries::<Seq<char>, int>();
            assert(binding_entries(r.bindings@) =~= Seq::empty());
            assert(r@.handlers =~= Seq::empty());
            assert(r@.params =~= Seq::empty());
        }
        r
    }

    /// The handler that `name` is bound to, by its position.
    pub fn lookup(&self, name: &str) -> (r: Option<usize>)
        ensures
            match r {
                Some(id) => self@.bindings.contains_key(name@) && self@.bindings[name@] == id
                    && id < self@.handlers.len() && id < self@.params.len(),
                None => !self@.bindings.contains_key(name@),
            },
    {
        proof {
            use_type_invariant(self);
        }
        let key = name.to_owned();
        let ghost entries = binding_entries(self.bindings@);
        let mut i: usize = 0;
        while i < self.bindings.len()
            invariant
                i <= self.bindings@.len(),
                key@ == name@,
                entries == binding_entries(self.bindings@),
                distinct_keys(entries),
                forall|j: int|
                    0 <= j < self.bindings@.len() ==> (#[trigger] self.bindings@[j]).1
                        < self.handlers@.len(),
                forall|j: int| 0 <= j < i ==> (#[trigger] entries[j]).0 != name@,
            decreases self.bindings@.len() - i,
        {
            if self.bindings[i].0 == key {
                proof {
                    lemma_entry_at(entries, i as int);
                }
                return Some(self.bindings[i].1);
            }
            i += 1;
        }
        None
    }

    /// The bound names, each once.
    pub fn names(&self) -> (r: Vec<String>)
        ensures
            r.deep_view().no_duplicates(),
            forall|name: Seq<char>|
                r.deep_view().contains(name) <==> self@.bindings.contains_key(name),
    {
        proof {
            use_type_invariant(self);
        }
        let ghost entries = binding_entries(self.bindings@);
        let mut names: Vec<String> = Vec::new();
        let mut i: usize = 0;
        while i < self.bindings.len()
            invariant
                i <= self.bindings@.len(),
                entries == binding_entries(self.bindings@),
                names.deep_view() == Seq::new(i as nat, |k: int| entries[k].0),
            decreases self.bindings@.len() - i,
        {
            let ghost before = names.deep_view();
            names.push(self.bindings[i].0.clone());
            assert(names.deep_view() == before.push(entries[i as int].0));
            i += 1;
        }
        proof {
            let views = names.deep_view();
            assert forall|a: int, b: int| 0 <= a < views.len() && 0 <= b < views.len() && a
                != b implies views[a] != views[b] by {
                if a < b {
                    assert(entries[a].0 != entries[b].0);
                } else {
                    assert(entries[b].0 != entries[a].0);
                }
            }
            assert forall|name: Seq<char>| views.contains(name) <==> self@.bindings.contains_key(
                name,
            ) by {
                if views.contains(name) {
                    let k = choose|k: int| 0 <= k < views.len() && views[k] == name;
                    assert(entries[k].0 == name);
                }
                if has_key(entries, name) {
                    let k = position_of(entries, name);
                    assert(views[k] == name);
                }
            }
        }
        names
    }

    /// How many handlers are registered.
    pub fn len(&self) -> (r: usize)
        ensures
            r == self@.handlers.len(),
    {
        self.handlers.len()
    }

    /// The handler at position `id`.
    pub fn handler(&self, id: usize) -> (r: Option<&H>)
        ensures
            match r {
                Some(h) => id < self@.handlers.len() && *h == self@.handlers[id as int],
                None => id >= self@.handlers.len(),
            },
    {
        if id < self.handlers.len() {
            Some(&self.handlers[id].0)
        } else {
            None
        }
    }

    /// The context items that the handler at position `id` declared.
    pub fn params_of(&self, id: usize) -> (r: Option<&Vec<ParamKind>>)
        ensures
            match r {
                Some(kinds) => id < self@.params.len() && kinds@ == self@.params[id as int],
                None => id >= self@.params.len(),
            },
    {
        if id < self.handlers.len() {
            Some(&self.handlers[id].1)
        } else {
            None
        }
    }

    /// Whether the name at `i` stands in `names` before `i` too.
    fn occurs_before(names: &Vec<String>, i: usize) -> (r: bool)
        requires
            i < names.len(),
        ensures
            r == names.deep_view().take(i as int).contains(names.deep_view()[i as int]),
    {
        let ghost views = names.deep_view();
        let mut j: usize = 0;
        while j < i
            invariant
                j <= i < names.len(),
                views == names.deep_view(),
                forall|k: int| 0 <= k < j ==> views[k] != views[i as int],
            decreases i - j,
        {
            if names[j] == names[i] {
                assert(views.take(i as int)[j as int] == views[i as int]);
                return true;
            }
            j += 1;
        }
        false
    }

    /// Adds `handler` under `names`, with the context items `params`.
    ///
    /// Fails at the first name that is bound already or that stands in `names`
    /// twice.
    pub fn insert(self, names: Vec<String>, params: Vec<ParamKind>, handler: H) -> (r: Result<
        Self,
        DuplicateCommand,
    >)
        ensures
            registered(
                self@,
                (Declaration { names: names.deep_view(), params: params@, handler }),
                outcome_view(r),
            ),
    {
        proof {
            use_type_invariant(&self);
        }
        let ghost before = self@;
        let ghost views = names.deep_view();
        let mut i: usize = 0;
        while i < names.len()
            invariant
                i <= names.len(),
                views == names.deep_view(),
                before == self@,
                clash_free(before.bindings, views.take(i as int)),
            decreases names.len() - i,
        {
            let bound = self.lookup(names[i].as_str()).is_some();
            if bound || Self::occurs_before(&names, i) {
                assert(is_first_clash(before.bindings, views, i as int));
                return Err(DuplicateCommand { command: names[i].clone() });
            }
            proof {
                let longer = views.take(i + 1);
                assert forall|k: int| 0 <= k < longer.len() implies !clashes_at(
                    before.bindings,
                    longer,
                    k,
                ) by {
                    assert(longer.take(k) == views.take(k));
                    if k < i {
                        assert(views.take(i as int).take(k) == views.take(k));
                        assert(!clashes_at(before.bindings, views.take(i as int), k));
                    }
                }
            }
            i += 1;
        }
        assert(views.take(i as int) == views);
        let CommandRegistry { mut bindings, mut handlers } = self;
        let id = handlers.len();
        let ghost old_entries = binding_entries(bindings@);
        let mut k: usize = 0;
        while k < names.len()
            invariant
                k <= names.len(),
                views == names.deep_view(),
                clash_free(before.bindings, views),
                before.bindings == entries_map(old_entries),
                distinct_keys(binding_entries(bindings@)),
                entries_map(binding_entries(bindings@)) == bind_all(
                    before.bindings,
                    views.take(k as int),
                    id as int,
                ),
                forall|j: int| 0 <= j < bindings@.len() ==> (#[trigger] bindings@[j]).1 <= id,
                id == handlers@.len(),
            decreases names.len() - k,
        {
            let name = names[k].clone();
            proof {
                let entries = binding_entries(bindings@);
                let shorter = views.take(k as int);
                assert(!clashes_at(before.bindings, views, k as int));
                assert(!bind_all(before.bindings, shorter, id as int).contains_key(
                    views[k as int],
                ));
                assert(!has_key(entries, name@)) by {
                    if has_key(entries, name@) {
                        let p = position_of(entries, name@);
                        lemma_entry_at(entries, p);
                    }
                }
                lemma_push_entry(entries, name@, id as int);
                assert(binding_entries(bindings@.push((name, id))) == entries.push(
                    (name@, id as int),
                ));
                let longer = views.take(k + 1);
                assert(longer == shorter.push(views[k as int]));
                assert forall|n: Seq<char>| longer.contains(n) <==> (shorter.contains(n) || n
                    == views[k as int]) by {
                    if longer.contains(n) {
                        let q = choose|q: int| 0 <= q < longer.len() && longer[q] == n;
                        if q < k {
                            assert(shorter[q] == n);
                        }
                    }
                    if shorter.contains(n) {
                        let q = choose|q: int| 0 <= q < shorter.len() && shorter[q] == n;
                        assert(longer[q] == n);
                    }
                    if n == views[k as int] {
                        assert(longer[k as int] == n);
                    }
                }
                assert(bind_all(before.bindings, shorter, id as int).insert(name@, id as int)
                    =~= bind_all(before.bindings, longer, id as int));
            }
            bindings.push((name, id));
            k += 1;
        }
        assert(views.take(k as int) == views);
        handlers.push((handler, params));
        let registry = CommandRegistry { bindings, handlers };
        proof {
            assert(registry@.handlers =~= before.handlers.push(handler));
            assert(registry@.params =~= before.params.push(params@));
        }
        Ok(registry)
    }
}

impl<H: CommandHandler> CommandRegistry<H> {
    /// Adds `handler` under the names that it answers to.
    ///
    /// The handler is asked once for its names and once for its context
    /// items; `insert` says what becomes of them.
    pub fn register(self, handler: H) -> (r: Result<Self, DuplicateCommand>)
        ensures
            exists|names: Vec<String>, params: Vec<ParamKind>|
                {
                    &&& #[trigger] call_ensures(H::commands, (&handler,), names)
                    &&& #[trigger] call_ensures(H::params, (&handler,), params)
                    &&& registered(
                        self@,
                        (Declaration { names: names.deep_view(), params: params@, handler }),
                        outcome_view(r),
                    )
                },
    {
        let names = handler.commands();
        let params = handler.params();
        self.insert(names, params, handler)
    }
}

/// Whether no name is declared twice, by one handler or by two.
pub open spec fn disjoint_names<H>(declared: Seq<Declaration<H>>) -> bool {
    forall|i: int, a: int, j: int, b: int|
        #![trigger declared[i].names[a], declared[j].names[b]]
        0 <= i < declared.len() && 0 <= a < declared[i].names.len() && 0 <= j < declared.len() && 0
            <= b < declared[j].names.len() && (i != j || a != b) ==> declared[i].names[a]
            != declared[j].names[b]
}

/// Whether `registry` holds the handlers of `declared`, in their order, and
/// binds exactly their names, each to the handler that declared it.
pub open spec fn binds_each_to_its_owner<H>(
    registry: RegistryView<H>,
    declared: Seq<Declaration<H>>,
) -> bool {
    &&& registry.handlers.len() == declared.len()
    &&& registry.params.len() == declared.len()
    &&& forall|i: int|
        0 <= i < declared.len() ==> (#[trigger] registry.handlers[i]) == declared[i].handler
            && registry.params[i] == declared[i].params
    &&& forall|i: int, a: int|
        0 <= i < declared.len() && 0 <= a < declared[i].names.len()
            ==> registry.bindings.contains_key(#[trigger] declared[i].names[a])
            && registry.bindings[declared[i].names[a]] == i
    &&& forall|name: Seq<char>| #[trigger]
        registry.bindings.contains_key(name) ==> exists|i: int, a: int|
            0 <= i < declared.len() && 0 <= a < declared[i].names.len()
                && #[trigger] declared[i].names[a] == name
}

/// Handlers whose declared names are pairwise disjoint can all be
/// registered, in any given order, and every name then resolves to the
/// handler that declared it.
pub proof fn lemma_disjoint_names_register<H>(declared: Seq<Declaration<H>>)
    requires
        disjoint_names(declared),
    ensures
        RegistryView::<H>::empty().register_all(declared) matches Some(registry)
            && binds_each_to_its_owner(registry, declared),
    decreases declared.len(),
{
    let start = RegistryView::<H>::empty();
    if declared.len() == 0 {
    } else {
        let earlier = declared.drop_last();
        let last = declared.last();
        let n = earlier.len() as int;
        assert forall|i: int, a: int, j: int, b: int|
            #![trigger earlier[i].names[a], earlier[j].names[b]]
            0 <= i < earlier.len() && 0 <= a < earlier[i].names.len() && 0 <= j < earlier.len()
                && 0 <= b < earlier[j].names.len() && (i != j || a != b) implies earlier[i].names[a]
            != earlier[j].names[b] by {
            assert(declared[i].names[a] != declared[j].names[b]);
        }
        lemma_disjoint_names_register(earlier);
        let before = start.register_all(earlier)->0;
        assert forall|k: int| 0 <= k < last.names.len() implies !clashes_at(
            before.bindings,
            last.names,
            k,
        ) by {
            if before.bindings.contains_key(last.names[k]) {
                let (i, a) = choose|i: int, a: int|
                    0 <= i < earlier.len() && 0 <= a < earlier[i].names.len()
                        && #[trigger] earlier[i].names[a] == last.names[k];
                assert(declared[i].names[a] != declared[n].names[k]);
            }
            if last.names.take(k).contains(last.names[k]) {
                let b = choose|b: int|
                    0 <= b < last.names.take(k).len() && last.names.take(k)[b] == last.names[k];
                assert(declared[n].names[b] != declared[n].names[k]);
            }
        }
        let after = before.register(last)->0;
        assert(start.register_all(declared) == Some(after));
        assert forall|i: int, a: int|
            0 <= i < declared.len() && 0 <= a < declared[i].names.len()
                implies after.bindings.contains_key(#[trigger] declared[i].names[a])
            && after.bindings[declared[i].names[a]] == i by {
            if i < n {
                assert(before.bindings.contains_key(earlier[i].names[a]));
                if last.names.contains(declared[i].names[a]) {
                    let b = choose|b: int|
                        0 <= b < last.names.len() && last.names[b] == declared[i].names[a];
                    assert(declared[i].names[a] != declared[n].names[b]);
                }
            } else {
                assert(last.names.contains(last.names[a]));
            }
        }
        assert forall|name: Seq<char>| #[trigger]
            after.bindings.contains_key(name) implies exists|i: int, a: int|
            0 <= i < declared.len() && 0 <= a < declared[i].names.len()
                && #[trigger] declared[i].names[a] == name by {
            if last.names.contains(name) {
                let b = choose|b: int| 0 <= b < last.names.len() && last.names[b] == name;
                assert(declared[n].names[b] == name);
            } else {
                let (i, a) = choose|i: int, a: int|
                    0 <= i < earlier.len() && 0 <= a < earlier[i].names.len()
                        && #[trigger] earlier[i].names[a] == name;
                assert(declared[i].names[a] == name);
            }
        }
    }
}

/// Two handlers that share a command name cannot both be registered,
/// whichever of them comes first.
pub proof fn lemma_shared_name_clashes<H>(
    registry: RegistryView<H>,
    first: Declaration<H>,
    second: Declaration<H>,
    name: Seq<char>,
)
    requires
        first.names.contains(name),
        second.names.contains(name),
    ensures
        registry.register_all(seq![first, second]) is None,
        registry.register_all(seq![second, first]) is None,
{
    lemma_second_clashes(registry, first, second, name);
    lemma_second_clashes(registry, second, first, name);
}

proof fn lemma_second_clashes<H>(
    registry: RegistryView<H>,
    first: Declaration<H>,
    second: Declaration<H>,
    name: Seq<char>,
)
    requires
        first.names.contains(name),
        second.names.contains(name),
    ensures
        registry.register_all(seq![first, second]) is None,
{
    let both = seq![first, second];
    assert(both.drop_last() == seq![first]);
    assert(seq![first].drop_last() == Seq::<Declaration<H>>::empty());
    reveal_with_fuel(RegistryView::register_all, 3);
    assert(registry.register_all(seq![first]) == registry.register(first));
    match registry.register(first) {
        Some(after) => {
            let b = choose|b: int| 0 <= b < second.names.len() && second.names[b] == name;
            assert(after.bindings.contains_key(name));
            assert(clashes_at(after.bindings, second.names, b));
        },
        None => {},
    }
}

} // verus!
