//! Scopes: who a component instance is, where its messages go, and whether
//! they are let through.

use std::marker::PhantomData;
use vstd::prelude::*;

verus! {

/// The mute depth after one more mute. The counter wraps.
pub open spec fn raised(depth: usize) -> usize {
    if depth == usize::MAX {
        0
    } else {
        (depth + 1) as usize
    }
}

/// The mute depth after one more unmute. The counter wraps.
pub open spec fn lowered(depth: usize) -> usize {
    if depth == 0 {
        usize::MAX
    } else {
        (depth - 1) as usize
    }
}

/// The mute counters of all scope families. A scope made on its own gets a
/// counter of its own; every scope inherited from it shares that counter.
pub struct MuteDepths {
    cells: Vec<usize>,
}

impl View for MuteDepths {
    type V = Seq<usize>;

    closed spec fn view(&self) -> Seq<usize> {
        self.cells@
    }
}

impl MuteDepths {
    /// No counters yet.
    pub fn new() -> (depths: MuteDepths)
        ensures
            depths@ == Seq::<usize>::empty(),
    {
        MuteDepths { cells: Vec::new() }
    }

    /// How many counters there are.
    pub fn len(&self) -> (n: usize)
        ensures
            n == self@.len(),
    {
        self.cells.len()
    }

    /// Adds a counter at depth 0 and gives its number.
    pub fn add_cell(&mut self) -> (cell: usize)
        ensures
            cell == old(self)@.len(),
            final(self)@ == old(self)@.push(0),
    {
        let cell = self.cells.len();
        self.cells.push(0);
        cell
    }

    /// The depth of counter `cell`.
    pub fn depth(&self, cell: usize) -> (depth: usize)
        requires
            cell < self@.len(),
        ensures
            depth == self@[cell as int],
    {
        self.cells[cell]
    }

    /// Raises counter `cell` by one.
    pub fn raise(&mut self, cell: usize)
        requires
            cell < old(self)@.len(),
        ensures
            final(self)@ == old(self)@.update(cell as int, raised(old(self)@[cell as int])),
    {
        let depth = self.cells[cell];
        let next = if depth == usize::MAX {
            0
        } else {
            depth + 1
        };
        self.cells.set(cell, next);
    }

    /// Lowers counter `cell` by one.
    pub fn lower(&mut self, cell: usize)
        requires
            cell < old(self)@.len(),
        ensures
            final(self)@ == old(self)@.update(cell as int, lowered(old(self)@[cell as int])),
    {
        let depth = self.cells[cell];
        let next = if depth == 0 {
            usize::MAX
        } else {
            depth - 1
        };
        self.cells.set(cell, next);
    }
}

/// What a component instance sends through: its name, the mute counter it
/// shares with its ancestors, and the channel its messages of type `M` go to.
pub struct Scope<M> {
    name: &'static str,
    muted: usize,
    channel: u64,
    marker: PhantomData<M>,
}

impl<M> Scope<M> {
    /// The number of the mute counter this scope shares.
    pub closed spec fn cell(&self) -> usize {
        self.muted
    }

    /// The number of the channel this scope sends to.
    pub closed spec fn outlet(&self) -> u64 {
        self.channel
    }

    /// The name of the instance.
    pub closed spec fn label(&self) -> &'static str {
        self.name
    }

    /// Whether messages sent through a scope on counter `cell` are dropped.
    pub open spec fn silenced(depths: Seq<usize>, cell: usize) -> bool {
        cell < depths.len() && depths[cell as int] > 0
    }

    /// What becomes of a message sent through this scope: it is handed back
    /// for the channel, or dropped.
    pub open spec fn delivery(&self, depths: Seq<usize>, message: M) -> Option<M> {
        if Self::silenced(depths, self.cell()) {
            None
        } else {
            Some(message)
        }
    }

    /// A scope of its own family: it gets a new mute counter, at depth 0.
    pub fn new(name: &'static str, channel: u64, depths: &mut MuteDepths) -> (scope: Self)
        ensures
            scope.label() == name,
            scope.outlet() == channel,
            scope.cell() == old(depths)@.len(),
            final(depths)@ == old(depths)@.push(0),
    {
        let muted = depths.add_cell();
        Scope { name, muted, channel, marker: PhantomData }
    }

    /// A scope for a child: it has its own name and its own channel, and
    /// shares this scope's mute counter.
    pub fn inherit<Child>(&self, name: &'static str, channel: u64) -> (scope: Scope<Child>)
        ensures
            scope.label() == name,
            scope.outlet() == channel,
            scope.cell() == self.cell(),
    {
        Scope { name, muted: self.muted, channel, marker: PhantomData }
    }

    /// The number of the mute counter this scope shares, computed.
    pub fn counter(&self) -> (cell: usize)
        ensures
            cell == self.cell(),
    {
        self.muted
    }

    /// The number of the channel this scope sends to, computed.
    pub fn channel(&self) -> (channel: u64)
        ensures
            channel == self.outlet(),
    {
        self.channel
    }

    /// Whether messages sent through this scope are dropped for now.
    pub fn is_muted(&self, depths: &MuteDepths) -> (b: bool)
        requires
            self.cell() < depths@.len(),
        ensures
            b == Self::silenced(depths@, self.cell()),
    {
        depths.depth(self.muted) > 0
    }

    /// Mutes this scope and every scope that shares its counter, one level
    /// deeper.
    pub fn mute(&self, depths: &mut MuteDepths)
        requires
            self.cell() < old(depths)@.len(),
        ensures
            final(depths)@ == old(depths)@.update(
                self.cell() as int,
                raised(old(depths)@[self.cell() as int]),
            ),
    {
        depths.raise(self.muted);
    }

    /// Takes back one level of muting.
    pub fn unmute(&self, depths: &mut MuteDepths)
        requires
            self.cell() < old(depths)@.len(),
        ensures
            final(depths)@ == old(depths)@.update(
                self.cell() as int,
                lowered(old(depths)@[self.cell() as int]),
            ),
    {
        depths.lower(self.muted);
    }

    /// Decides what becomes of `message`: while the scope is muted it is
    /// dropped, otherwise it is handed back to be put on the scope's channel.
    pub fn send_message(&self, depths: &MuteDepths, message: M) -> (sent: Option<M>)
        requires
            self.cell() < depths@.len(),
        ensures
            sent == self.delivery(depths@, message),
    {
        if self.is_muted(depths) {
            None
        } else {
            Some(message)
        }
    }

    /// The name of the instance.
    pub fn name(&self) -> (name: &'static str)
        ensures
            name == self.label(),
    {
        self.name
    }

    /// After a mute, every message sent through the scope, or through any
    /// scope that shares its counter, is dropped, however many are sent.
    /// Holds unless the counter stood at its largest value and wrapped.
    pub proof fn lemma_mute_silences_family<N>(
        &self,
        other: &Scope<N>,
        depths: Seq<usize>,
        message: N,
    )
        requires
            self.cell() < depths.len(),
            depths[self.cell() as int] < usize::MAX,
            other.cell() == self.cell(),
        ensures
            other.delivery(
                depths.update(self.cell() as int, raised(depths[self.cell() as int])),
                message,
            ) is None,
    {
    }

    /// An unmute takes a mute back: the counters are what they were.
    pub proof fn lemma_unmute_undoes_mute(&self, depths: Seq<usize>)
        requires
            self.cell() < depths.len(),
        ensures
            ({
                let muted = depths.update(self.cell() as int, raised(depths[self.cell() as int]));
                muted.update(self.cell() as int, lowered(muted[self.cell() as int]))
            }) == depths,
    {
        let muted = depths.update(self.cell() as int, raised(depths[self.cell() as int]));
        assert(muted.update(self.cell() as int, lowered(muted[self.cell() as int])) =~= depths);
    }

    /// A message sent through a scope whose counter stands at 0 is handed
    /// back for the channel: exactly that message, once.
    pub proof fn lemma_unmuted_delivers(&self, depths: Seq<usize>, message: M)
        requires
            self.cell() < depths.len(),
            depths[self.cell() as int] == 0,
        ensures
            self.delivery(depths, message) == Some(message),
    {
    }
}

impl<M> Clone for Scope<M> {
    fn clone(&self) -> (scope: Self)
        ensures
            scope == *self,
    {
        Scope { name: self.name, muted: self.muted, channel: self.channel, marker: PhantomData }
    }
}

/// A scope without the type of its messages.
#[derive(Clone, Copy, Debug)]
pub struct AnyScope {
    name: &'static str,
    muted: usize,
    channel: u64,
}

impl AnyScope {
    /// The number of the mute counter this scope shares.
    pub closed spec fn cell(&self) -> usize {
        self.muted
    }

    /// The number of the channel this scope sends to.
    pub closed spec fn outlet(&self) -> u64 {
        self.channel
    }

    /// The name of the instance.
    pub closed spec fn label(&self) -> &'static str {
        self.name
    }

    /// The name of the instance.
    pub fn name(&self) -> (name: &'static str)
        ensures
            name == self.label(),
    {
        self.name
    }

    /// The number of the mute counter this scope shares, computed.
    pub fn counter(&self) -> (cell: usize)
        ensures
            cell == self.cell(),
    {
        self.muted
    }

    /// The number of the channel this scope sends to, computed.
    pub fn channel(&self) -> (channel: u64)
        ensures
            channel == self.outlet(),
    {
        self.channel
    }

    /// The same scope, with messages of type `M` again.
    pub fn typed<M>(&self) -> (scope: Scope<M>)
        ensures
            scope.label() == self.label(),
            scope.cell() == self.cell(),
            scope.outlet() == self.outlet(),
    {
        Scope { name: self.name, muted: self.muted, channel: self.channel, marker: PhantomData }
    }
}

impl<M> From<Scope<M>> for AnyScope {
    fn from(scope: Scope<M>) -> (any: AnyScope) {
        AnyScope { name: scope.name, muted: scope.muted, channel: scope.channel }
    }
}

impl<M> vstd::std_specs::convert::FromSpecImpl<Scope<M>> for AnyScope {
    open spec fn obeys_from_spec() -> bool {
        true
    }

    open spec fn from_spec(scope: Scope<M>) -> AnyScope {
        AnyScope::erased(scope.label(), scope.cell(), scope.outlet())
    }
}

impl AnyScope {
    /// The scope with the given name, counter and channel.
    pub closed spec fn erased(name: &'static str, cell: usize, channel: u64) -> AnyScope {
        AnyScope { name, muted: cell, channel }
    }

    /// What `erased` builds.
    pub proof fn lemma_erased(name: &'static str, cell: usize, channel: u64)
        ensures
            Self::erased(name, cell, channel).label() == name,
            Self::erased(name, cell, channel).cell() == cell,
            Self::erased(name, cell, channel).outlet() == channel,
    {
    }
}

} // verus!
