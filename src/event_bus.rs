use vstd::prelude::*;

verus! {

/// Relies on `<str as PartialEq>::eq`: two string slices are equal exactly
/// when they hold the same characters.
#[verifier::external_body]
pub(crate) fn str_eq(a: &str, b: &str) -> (r: bool)
    ensures
        r == (a@ == b@),
{
    a == b
}

/// Mathematical model of an event key: its form and its name.
pub struct EventKey {
    pub once: bool,
    pub name: Seq<char>,
}

/// Identifier of an event occurrence. A `OnceTriggered` key fires at most
/// once; a `Static` key fires any number of times. Two keys are equal only
/// when both the form and the name match.
#[derive(Debug, Clone, Eq, Hash)]
pub enum RuntimeEvent {
    OnceTriggered { event_name: String },
    Static { event_name: String },
}

impl View for RuntimeEvent {
    type V = EventKey;

    open spec fn view(&self) -> EventKey {
        match self {
            RuntimeEvent::OnceTriggered { event_name } => EventKey { once: true, name: event_name@ },
            RuntimeEvent::Static { event_name } => EventKey { once: false, name: event_name@ },
        }
    }
}

impl RuntimeEvent {
    /// Whether this key fires at most once.
    pub fn is_once(&self) -> (r: bool)
        ensures
            r == self@.once,
    {
        match self {
            RuntimeEvent::OnceTriggered { .. } => true,
            RuntimeEvent::Static { .. } => false,
        }
    }

    /// The name of the event, whatever its form.
    pub fn event_name(&self) -> (r: &String)
        ensures
            r@ == self@.name,
    {
        match self {
            RuntimeEvent::OnceTriggered { event_name } => event_name,
            RuntimeEvent::Static { event_name } => event_name,
        }
    }
}

impl PartialEq for RuntimeEvent {
    fn eq(&self, other: &RuntimeEvent) -> (r: bool) {
        let same_form = self.is_once() == other.is_once();
        if same_form {
            let r = *self.event_name() == *other.event_name();
            assert(r == (self@ == other@));
            r
        } else {
            false
        }
    }
}

impl vstd::std_specs::cmp::PartialEqSpecImpl for RuntimeEvent {
    open spec fn obeys_eq_spec() -> bool {
        true
    }

    open spec fn eq_spec(&self, other: &RuntimeEvent) -> bool {
        self@ == other@
    }
}

/// A payload wrapped once for delivery, tagged with the identity of its
/// concrete type so that a listener can recover it only under that identity.
pub struct RuntimeEventListenerHandlerArg<T> {
    pub type_key: String,
    pub value: T,
}

impl<T> RuntimeEventListenerHandlerArg<T> {
    /// Wraps `value`, whose concrete type is identified by `type_key`.
    pub fn new(type_key: String, value: T) -> (r: Self)
        ensures
            r.type_key@ == type_key@,
            r.value == value,
    {
        RuntimeEventListenerHandlerArg { type_key, value }
    }

    /// Recovers the payload when `expected` names its type, and nothing
    /// otherwise: a mismatch is a skip, not an error.
    pub fn downcast(&self, expected: &str) -> (r: Option<&T>)
        ensures
            r == (if self.type_key@ == expected@ { Some(&self.value) } else { None }),
    {
        if str_eq(self.type_key.as_str(), expected) {
            Some(&self.value)
        } else {
            None
        }
    }
}

/// A handler bound to an event, with the tag of the component that owns it
/// and the identity of the payload type it expects.
pub struct RuntimeEventListener<H> {
    pub tag: String,
    pub payload_type: String,
    pub handler: H,
}

impl<H> RuntimeEventListener<H> {
    /// A listener owned by the component tagged `tag`, expecting payloads
    /// identified by `payload_type`.
    pub fn new(tag: String, payload_type: String, handler: H) -> (r: Self)
        ensures
            r.tag@ == tag@,
            r.payload_type@ == payload_type@,
            r.handler == handler,
    {
        RuntimeEventListener { tag, payload_type, handler }
    }
}

/// Mathematical model of one registration: the key it was made under and the
/// listener's tag, expected payload type and handler.
pub struct Registration<H> {
    pub key: EventKey,
    pub tag: Seq<char>,
    pub payload_type: Seq<char>,
    pub handler: H,
}

pub open spec fn registration_of<H>(event: &RuntimeEvent, listener: &RuntimeEventListener<H>) -> Registration<H> {
    Registration {
        key: event@,
        tag: listener.tag@,
        payload_type: listener.payload_type@,
        handler: listener.handler,
    }
}

/// The registrations made under `key`, in the order they were made.
pub open spec fn listeners_of<H>(s: Seq<Registration<H>>, key: EventKey) -> Seq<Registration<H>>
    decreases s.len(),
{
    if s.len() == 0 {
        Seq::empty()
    } else if s.last().key == key {
        listeners_of(s.drop_last(), key).push(s.last())
    } else {
        listeners_of(s.drop_last(), key)
    }
}

/// The handlers of the registrations in `s` that expect payload type `ty`,
/// in order.
pub open spec fn accepting<H>(s: Seq<Registration<H>>, ty: Seq<char>) -> Seq<H>
    decreases s.len(),
{
    if s.len() == 0 {
        Seq::empty()
    } else if s.last().payload_type == ty {
        accepting(s.drop_last(), ty).push(s.last().handler)
    } else {
        accepting(s.drop_last(), ty)
    }
}

/// The handlers that one emission of `key` with a payload of type `ty` runs,
/// in the order they run.
pub open spec fn deliveries<H>(s: Seq<Registration<H>>, key: EventKey, ty: Seq<char>) -> Seq<H> {
    accepting(listeners_of(s, key), ty)
}

/// `s` without the registrations whose tag is `tag`, the rest in order.
pub open spec fn without_tag<H>(s: Seq<Registration<H>>, tag: Seq<char>) -> Seq<Registration<H>>
    decreases s.len(),
{
    if s.len() == 0 {
        Seq::empty()
    } else if s.last().tag == tag {
        without_tag(s.drop_last(), tag)
    } else {
        without_tag(s.drop_last(), tag).push(s.last())
    }
}

/// `s` without the registrations made under `key`, the rest in order.
pub open spec fn without_key<H>(s: Seq<Registration<H>>, key: EventKey) -> Seq<Registration<H>>
    decreases s.len(),
{
    if s.len() == 0 {
        Seq::empty()
    } else if s.last().key == key {
        without_key(s.drop_last(), key)
    } else {
        without_key(s.drop_last(), key).push(s.last())
    }
}

/// One more registration adds its handler to an emission exactly when it
/// was made under the emitted key and expects the emitted payload type.
pub proof fn lemma_deliveries_push<H>(s: Seq<Registration<H>>, x: Registration<H>, key: EventKey, ty: Seq<char>)
    ensures
        deliveries(s.push(x), key, ty) == (if x.key == key && x.payload_type == ty {
            deliveries(s, key, ty).push(x.handler)
        } else {
            deliveries(s, key, ty)
        }),
{
    assert(s.push(x).drop_last() == s);
    let l = listeners_of(s, key);
    assert(l.push(x).drop_last() == l);
}

/// Listeners registered one after another under one key, all expecting the
/// emitted payload type, run in one emission in exactly the order they were
/// registered, after the ones registered before them.
pub proof fn lemma_emission_keeps_registration_order<H>(
    s: Seq<Registration<H>>,
    regs: Seq<Registration<H>>,
    key: EventKey,
    ty: Seq<char>,
)
    requires
        forall|i: int| 0 <= i < regs.len() ==> regs[i].key == key && regs[i].payload_type == ty,
    ensures
        deliveries(s + regs, key, ty) == deliveries(s, key, ty) + regs.map_values(|r: Registration<H>| r.handler),
    decreases regs.len(),
{
    if regs.len() == 0 {
        assert(s + regs =~= s);
        assert(deliveries(s, key, ty) + regs.map_values(|r: Registration<H>| r.handler) =~= deliveries(s, key, ty));
    } else {
        let front = regs.drop_last();
        let x = regs.last();
        lemma_emission_keeps_registration_order(s, front, key, ty);
        assert(s + regs =~= (s + front).push(x));
        lemma_deliveries_push(s + front, x, key, ty);
        assert(regs.map_values(|r: Registration<H>| r.handler) =~= front.map_values(|r: Registration<H>| r.handler).push(x.handler));
        assert(deliveries(s + regs, key, ty) =~= deliveries(s, key, ty) + regs.map_values(|r: Registration<H>| r.handler));
    }
}

/// Once the emission of a `OnceTriggered` key has ended, the key has no
/// listener left, so a second emission of it runs no handler: every listener
/// registered under it fires once in all.
pub proof fn lemma_once_key_fires_once<H>(s: Seq<Registration<H>>, key: EventKey, ty: Seq<char>)
    requires
        key.once,
    ensures
        listeners_of(without_key(s, key), key).len() == 0,
        deliveries(without_key(s, key), key, ty).len() == 0,
    decreases s.len(),
{
    if s.len() > 0 {
        lemma_once_key_fires_once(s.drop_last(), key, ty);
        let w = without_key(s.drop_last(), key);
        if s.last().key != key {
            assert(w.push(s.last()).drop_last() == w);
        }
    }
}

/// Ending the emission of one key leaves the listeners of every other key as
/// they were; `Static(x)` and `OnceTriggered(x)` are different keys.
pub proof fn lemma_keys_are_independent<H>(s: Seq<Registration<H>>, key: EventKey, other: EventKey)
    requires
        key != other,
    ensures
        listeners_of(without_key(s, key), other) == listeners_of(s, other),
    decreases s.len(),
{
    if s.len() > 0 {
        lemma_keys_are_independent(s.drop_last(), key, other);
        let w = without_key(s.drop_last(), key);
        if s.last().key != key {
            assert(w.push(s.last()).drop_last() == w);
        }
    }
}

/// After removing a tag, no registration with that tag is left, and the
/// listeners of each key are the ones it had without that tag, in order.
pub proof fn lemma_removed_tag_is_gone<H>(s: Seq<Registration<H>>, tag: Seq<char>, key: EventKey)
    ensures
        forall|i: int| 0 <= i < without_tag(s, tag).len() ==> without_tag(s, tag)[i].tag != tag,
        listeners_of(without_tag(s, tag), key) == without_tag(listeners_of(s, key), tag),
    decreases s.len(),
{
    if s.len() > 0 {
        lemma_removed_tag_is_gone(s.drop_last(), tag, key);
        let x = s.last();
        let w = without_tag(s.drop_last(), tag);
        let l = listeners_of(s.drop_last(), key);
        assert(w.push(x).drop_last() == w);
        assert(l.push(x).drop_last() == l);
        if x.tag != tag {
            assert forall|i: int| 0 <= i < w.push(x).len() implies w.push(x)[i].tag != tag by {
                if i < w.len() {
                    assert(w.push(x)[i] == w[i]);
                }
            }
        }
    }
}

/// A listener that expects another payload type than the emitted one is
/// skipped: when no listener of the key expects the emitted type, the
/// emission runs no handler.
pub proof fn lemma_type_mismatch_is_skipped<H>(s: Seq<Registration<H>>, key: EventKey, ty: Seq<char>)
    requires
        forall|i: int| 0 <= i < listeners_of(s, key).len() ==> listeners_of(s, key)[i].payload_type != ty,
    ensures
        deliveries(s, key, ty).len() == 0,
{
    lemma_no_accepting(listeners_of(s, key), ty);
}

proof fn lemma_no_accepting<H>(l: Seq<Registration<H>>, ty: Seq<char>)
    requires
        forall|i: int| 0 <= i < l.len() ==> l[i].payload_type != ty,
    ensures
        accepting(l, ty).len() == 0,
    decreases l.len(),
{
    if l.len() > 0 {
        let f = l.drop_last();
        assert forall|i: int| 0 <= i < f.len() implies f[i].payload_type != ty by {
            assert(f[i] == l[i]);
        }
        lemma_no_accepting(f, ty);
    }
}

/// The registry of listeners: for every event key, the listeners registered
/// under it in registration order. Registrations are kept in one sequence in
/// the order they were made; the listeners of a key are those made under it.
pub struct RuntimeEventBus<H> {
    entries: Vec<(RuntimeEvent, RuntimeEventListener<H>)>,
}

pub open spec fn entries_view<H>(s: Seq<(RuntimeEvent, RuntimeEventListener<H>)>) -> Seq<Registration<H>> {
    s.map_values(|e: (RuntimeEvent, RuntimeEventListener<H>)| registration_of(&e.0, &e.1))
}

impl<H> View for RuntimeEventBus<H> {
    type V = Seq<Registration<H>>;

    closed spec fn view(&self) -> Seq<Registration<H>> {
        entries_view(self.entries@)
    }
}

impl<H> RuntimeEventBus<H> {
    /// An empty registry.
    pub fn new() -> (r: Self)
        ensures
            r@ == Seq::<Registration<H>>::empty(),
    {
        let r = RuntimeEventBus { entries: Vec::new() };
        assert(r@ =~= Seq::<Registration<H>>::empty());
        r
    }

    /// Appends `listener` to the listeners of `event`. No uniqueness check:
    /// a duplicate registration fires as often as it was made.
    pub fn add_listener(&mut self, event: RuntimeEvent, listener: RuntimeEventListener<H>)
        ensures
            final(self)@ == old(self)@.push(registration_of(&event, &listener)),
    {
        let ghost reg = registration_of(&event, &listener);
        self.entries.push((event, listener));
        assert(self@ =~= old(self)@.push(reg));
    }

    /// Takes every entry out of the registry, last first.
    fn drain_reversed(&mut self) -> (rev: Vec<(RuntimeEvent, RuntimeEventListener<H>)>)
        ensures
            final(self).entries@.len() == 0,
            rev@.len() == old(self).entries@.len(),
            forall|j: int|
                0 <= j < rev@.len() ==> rev@[j] == old(self).entries@[rev@.len() - 1 - j],
    {
        let ghost orig = self.entries@;
        let mut rev: Vec<(RuntimeEvent, RuntimeEventListener<H>)> = Vec::new();
        while self.entries.len() > 0
            invariant
                self.entries@.len() + rev@.len() == orig.len(),
                self.entries@ == orig.take(self.entries@.len() as int),
                forall|j: int| 0 <= j < rev@.len() ==> rev@[j] == orig[orig.len() - 1 - j],
            decreases self.entries@.len(),
        {
            let e = self.entries.pop().unwrap();
            rev.push(e);
        }
        rev
    }

    /// Removes, under every key, the listeners whose tag is `tag`, keeping the
    /// others in order. Removing a tag that matches nothing changes nothing.
    pub fn remove_all_listeners_by_tag(&mut self, tag: &str)
        ensures
            final(self)@ == without_tag(old(self)@, tag@),
    {
        let ghost orig = self.entries@;
        let mut rev = self.drain_reversed();
        let ghost n = rev@.len() as int;
        assert(entries_view(self.entries@) =~= without_tag(entries_view(orig.take(0)), tag@));
        while rev.len() > 0
            invariant
                n == orig.len(),
                rev@.len() <= n,
                forall|j: int| 0 <= j < rev@.len() ==> rev@[j] == orig[n - 1 - j],
                entries_view(self.entries@) == without_tag(entries_view(orig.take(n - rev@.len())), tag@),
            decreases rev@.len(),
        {
            let ghost k = n - rev@.len();
            let e = rev.pop().unwrap();
            let ghost reg = registration_of(&e.0, &e.1);
            assert(e == orig[k]);
            assert(entries_view(orig.take(k + 1)).drop_last() =~= entries_view(orig.take(k)));
            assert(entries_view(orig.take(k + 1)).last() == reg);
            if !str_eq(e.1.tag.as_str(), tag) {
                let ghost prev = self.entries@;
                self.entries.push(e);
                assert(entries_view(self.entries@) =~= entries_view(prev).push(reg));
            }
        }
        assert(orig.take(n) == orig);
    }

    /// Ends an emission of `event`: a `OnceTriggered` key loses all of its
    /// listeners; under a `Static` key they stay for later emissions.
    pub fn finish_emission(&mut self, event: &RuntimeEvent)
        ensures
            final(self)@ == (if event@.once { without_key(old(self)@, event@) } else { old(self)@ }),
    {
        if !event.is_once() {
            return;
        }
        let ghost orig = self.entries@;
        let mut rev = self.drain_reversed();
        let ghost n = rev@.len() as int;
        assert(entries_view(self.entries@) =~= without_key(entries_view(orig.take(0)), event@));
        while rev.len() > 0
            invariant
                n == orig.len(),
                rev@.len() <= n,
                forall|j: int| 0 <= j < rev@.len() ==> rev@[j] == orig[n - 1 - j],
                entries_view(self.entries@) == without_key(entries_view(orig.take(n - rev@.len())), event@),
            decreases rev@.len(),
        {
            let ghost k = n - rev@.len();
            let e = rev.pop().unwrap();
            let ghost reg = registration_of(&e.0, &e.1);
            assert(e == orig[k]);
            assert(entries_view(orig.take(k + 1)).drop_last() =~= entries_view(orig.take(k)));
            assert(entries_view(orig.take(k + 1)).last() == reg);
            if !(e.0 == *event) {
                let ghost prev = self.entries@;
                self.entries.push(e);
                assert(entries_view(self.entries@) =~= entries_view(prev).push(reg));
            }
        }
        assert(orig.take(n) == orig);
    }

    /// The handlers that an emission of `event` with payload `arg` runs, in
    /// the order they run: the listeners registered under `event`, in
    /// registration order, that recover the payload under the type they
    /// expect. The others are skipped.
    pub fn listeners_for<'a, T>(&'a self, event: &RuntimeEvent, arg: &RuntimeEventListenerHandlerArg<T>) -> (r: Vec<&'a H>)
        ensures
            r@.map_values(|h: &H| *h) == deliveries(self@, event@, arg.type_key@),
    {
        let mut r: Vec<&'a H> = Vec::new();
        assert(r@.map_values(|h: &H| *h) =~= Seq::<H>::empty());
        let mut i: usize = 0;
        assert(entries_view(self.entries@.take(0)) =~= Seq::<Registration<H>>::empty());
        while i < self.entries.len()
            invariant
                i <= self.entries@.len(),
                r@.map_values(|h: &H| *h) == deliveries(entries_view(self.entries@.take(i as int)), event@, arg.type_key@),
            decreases self.entries@.len() - i,
        {
            let e = &self.entries[i];
            let ghost reg = registration_of(&e.0, &e.1);
            let ghost before = entries_view(self.entries@.take(i as int));
            assert(entries_view(self.entries@.take(i + 1)) =~= before.push(reg));
            proof { lemma_deliveries_push(before, reg, event@, arg.type_key@); }
            if e.0 == *event {
                if arg.downcast(e.1.payload_type.as_str()).is_some() {
                    let ghost prev = r@;
                    r.push(&e.1.handler);
                    assert(r@.map_values(|h: &H| *h) =~= prev.map_values(|h: &H| *h).push(e.1.handler));
                }
            }
            i = i + 1;
        }
        assert(self.entries@.take(self.entries@.len() as int) == self.entries@);
        r
    }
}

} // verus!
