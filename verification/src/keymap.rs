//! Keymap layers and the layered keymap stack.
//!
//! A layer is one rule table `(ContextId, KeyChord) -> Command`; a stack is
//! an ordered list of layers, later layers having higher priority, with a
//! two-pass resolution: the exact context first across all layers, then the
//! `Global` context across all layers.

use vstd::prelude::*;
use crate::chord::KeyChord;
use crate::command::Command;
use crate::context::ContextId;

verus! {

/// The rule table that a list of bindings denotes: later bindings overwrite
/// earlier ones for the same `(context, chord)` pair.
pub open spec fn bindings_map(s: Seq<(ContextId, KeyChord, Command)>) -> Map<
    (ContextId, KeyChord),
    Command,
>
    decreases s.len(),
{
    if s.len() == 0 {
        Map::empty()
    } else {
        bindings_map(s.drop_last()).insert((s.last().0, s.last().1), s.last().2)
    }
}

/// Exact lookup in one rule table: no fallback of any kind.
pub open spec fn layer_resolve_spec(
    m: Map<(ContextId, KeyChord), Command>,
    context: ContextId,
    chord: KeyChord,
) -> Option<Command> {
    if m.contains_key((context, chord)) {
        Some(m[(context, chord)])
    } else {
        None
    }
}

/// A single rule table mapping `(ContextId, KeyChord)` to `Command`.
#[derive(Debug, Clone)]
pub struct KeymapLayer {
    bindings: Vec<(ContextId, KeyChord, Command)>,
}

impl View for KeymapLayer {
    type V = Map<(ContextId, KeyChord), Command>;

    closed spec fn view(&self) -> Map<(ContextId, KeyChord), Command> {
        bindings_map(self.bindings@)
    }
}

impl KeymapLayer {
    /// An empty rule table.
    pub fn new() -> (r: Self)
        ensures
            r@ == Map::<(ContextId, KeyChord), Command>::empty(),
    {
        let r = KeymapLayer { bindings: Vec::new() };
        proof {
            assert(r.bindings@ =~= Seq::<(ContextId, KeyChord, Command)>::empty());
        }
        r
    }

    /// Inserts or overwrites the binding for this exact `(context, chord)`
    /// pair; the last bind wins within a layer.
    pub fn bind(&mut self, context: ContextId, chord: KeyChord, command: Command)
        ensures
            final(self)@ == old(self)@.insert((context, chord), command),
    {
        self.bindings.push((context, chord, command));
        proof {
            assert(self.bindings@.drop_last() =~= old(self).bindings@);
            assert(self.bindings@.last() == (context, chord, command));
        }
    }

    /// Exact lookup: the command bound to this `(context, chord)` pair in
    /// this layer, with no fallback.
    pub fn resolve(&self, context: ContextId, chord: &KeyChord) -> (r: Option<Command>)
        ensures
            r == layer_resolve_spec(self@, context, *chord),
    {
        let ghost full = self.bindings@;
        let mut i: usize = self.bindings.len();
        proof {
            assert(full.take(i as int) =~= full);
        }
        while i > 0
            invariant
                i <= self.bindings@.len(),
                full == self.bindings@,
                layer_resolve_spec(bindings_map(full), context, *chord) == layer_resolve_spec(
                    bindings_map(full.take(i as int)),
                    context,
                    *chord,
                ),
            decreases i,
        {
            let entry = &self.bindings[i - 1];
            let ghost pre = full.take(i as int);
            proof {
                assert(pre.drop_last() =~= full.take(i - 1));
                assert(pre.last() == full[i - 1]);
            }
            if entry.0 == context && entry.1 == *chord {
                return Some(entry.2);
            }
            i = i - 1;
        }
        proof {
            assert(full.take(0) =~= Seq::<(ContextId, KeyChord, Command)>::empty());
        }
        None
    }
}

impl Default for KeymapLayer {
    /// An empty rule table.
    fn default() -> (r: Self)
        ensures
            r@ == Map::<(ContextId, KeyChord), Command>::empty(),
    {
        Self::new()
    }
}

/// One pass over a stack of rule tables, highest priority (last pushed)
/// first, looking up an exact `(context, chord)` pair.
pub open spec fn resolve_in_context(
    layers: Seq<Map<(ContextId, KeyChord), Command>>,
    context: ContextId,
    chord: KeyChord,
) -> Option<Command>
    decreases layers.len(),
{
    if layers.len() == 0 {
        None
    } else {
        match layer_resolve_spec(layers.last(), context, chord) {
            Some(cmd) => Some(cmd),
            None => resolve_in_context(layers.drop_last(), context, chord),
        }
    }
}

/// Full stack resolution: the exact context beats `Global` regardless of
/// layer order; within each scope, later layers win; an unbound pair
/// resolves to nothing.
pub open spec fn stack_resolve_spec(
    layers: Seq<Map<(ContextId, KeyChord), Command>>,
    context: ContextId,
    chord: KeyChord,
) -> Option<Command> {
    match resolve_in_context(layers, context, chord) {
        Some(cmd) => Some(cmd),
        None => if context != ContextId::Global {
            resolve_in_context(layers, ContextId::Global, chord)
        } else {
            None
        },
    }
}

/// An ordered list of layers; later layers have higher priority.
#[derive(Debug, Clone)]
pub struct KeymapStack {
    layers: Vec<KeymapLayer>,
}

impl View for KeymapStack {
    type V = Seq<Map<(ContextId, KeyChord), Command>>;

    closed spec fn view(&self) -> Seq<Map<(ContextId, KeyChord), Command>> {
        self.layers@.map_values(|l: KeymapLayer| l@)
    }
}

impl KeymapStack {
    /// An empty stack.
    pub fn new() -> (r: Self)
        ensures
            r@ == Seq::<Map<(ContextId, KeyChord), Command>>::empty(),
    {
        let r = KeymapStack { layers: Vec::new() };
        proof {
            assert(r@ =~= Seq::<Map<(ContextId, KeyChord), Command>>::empty());
        }
        r
    }

    /// Pushes a layer on top: it gets the highest priority.
    pub fn push_layer(&mut self, layer: KeymapLayer)
        ensures
            final(self)@ == old(self)@.push(layer@),
    {
        self.layers.push(layer);
        proof {
            assert(self@ =~= old(self)@.push(self.layers@.last()@));
        }
    }

    /// Pops the most recently pushed layer, if any.
    pub fn pop_layer(&mut self) -> (r: Option<KeymapLayer>)
        ensures
            match r {
                Some(l) => old(self)@.len() > 0 && l@ == old(self)@.last() && final(self)@ == old(
                    self,
                )@.drop_last(),
                None => old(self)@.len() == 0 && final(self)@ == old(self)@,
            },
    {
        let r = self.layers.pop();
        proof {
            if old(self).layers@.len() > 0 {
                assert(self@ =~= old(self)@.drop_last());
            } else {
                assert(self@ =~= old(self)@);
            }
        }
        r
    }

    /// Two-pass resolution over the whole stack: first the exact context,
    /// highest priority first; then, if nothing was found and the context is
    /// not already `Global`, the `Global` context, highest priority first.
    pub fn resolve(&self, context: ContextId, chord: &KeyChord) -> (r: Option<Command>)
        ensures
            r == stack_resolve_spec(self@, context, *chord),
    {
        if let Some(cmd) = self.resolve_pass(context, chord) {
            return Some(cmd);
        }
        if context != ContextId::Global {
            if let Some(cmd) = self.resolve_pass(ContextId::Global, chord) {
                return Some(cmd);
            }
        }
        None
    }

    /// One pass over the layers, highest priority first, in one context.
    fn resolve_pass(&self, context: ContextId, chord: &KeyChord) -> (r: Option<Command>)
        ensures
            r == resolve_in_context(self@, context, *chord),
    {
        let ghost full = self@;
        let mut i: usize = self.layers.len();
        proof {
            assert(full.take(i as int) =~= full);
        }
        while i > 0
            invariant
                i <= self.layers@.len(),
                full == self@,
                full.len() == self.layers@.len(),
                forall|j: int| 0 <= j < full.len() ==> full[j] == self.layers@[j]@,
                resolve_in_context(full, context, *chord) == resolve_in_context(
                    full.take(i as int),
                    context,
                    *chord,
                ),
            decreases i,
        {
            let ghost pre = full.take(i as int);
            proof {
                assert(pre.drop_last() =~= full.take(i - 1));
                assert(pre.last() == full[i - 1]);
            }
            if let Some(cmd) = self.layers[i - 1].resolve(context, chord) {
                return Some(cmd);
            }
            i = i - 1;
        }
        proof {
            assert(full.take(0) =~= Seq::<Map<(ContextId, KeyChord), Command>>::empty());
        }
        None
    }
}

impl Default for KeymapStack {
    /// An empty stack.
    fn default() -> (r: Self)
        ensures
            r@ == Seq::<Map<(ContextId, KeyChord), Command>>::empty(),
    {
        Self::new()
    }
}

/// Stack global fallback: when no layer binds the pair in its exact context
/// and the context is not `Global`, resolution falls back to whatever the
/// `Global` pass finds.
pub proof fn lemma_stack_global_fallback(
    layers: Seq<Map<(ContextId, KeyChord), Command>>,
    context: ContextId,
    chord: KeyChord,
)
    requires
        context != ContextId::Global,
        resolve_in_context(layers, context, chord) is None,
    ensures
        stack_resolve_spec(layers, context, chord) == resolve_in_context(
            layers,
            ContextId::Global,
            chord,
        ),
{
}

/// Context precedence over layer order: whenever any layer binds the pair in
/// its exact context, the stack resolves to that pass's answer, and no
/// `Global` binding in any layer — however recently pushed — is consulted.
pub proof fn lemma_context_precedence(
    layers: Seq<Map<(ContextId, KeyChord), Command>>,
    context: ContextId,
    chord: KeyChord,
)
    requires
        resolve_in_context(layers, context, chord) is Some,
    ensures
        stack_resolve_spec(layers, context, chord) == resolve_in_context(layers, context, chord),
{
}

/// Pushing a layer overrides below it: the new top layer answers first in
/// its context, and only where it is silent does the rest of the stack
/// answer as before.
pub proof fn lemma_push_overrides(
    layers: Seq<Map<(ContextId, KeyChord), Command>>,
    top: Map<(ContextId, KeyChord), Command>,
    context: ContextId,
    chord: KeyChord,
)
    ensures
        resolve_in_context(layers.push(top), context, chord) == (match layer_resolve_spec(
            top,
            context,
            chord,
        ) {
            Some(cmd) => Some(cmd),
            None => resolve_in_context(layers, context, chord),
        }),
{
    assert(layers.push(top).drop_last() =~= layers);
    assert(layers.push(top).last() == top);
}

/// User override: a layer pushed later that rebinds an exact pair wins over
/// every earlier layer's binding for that pair.
pub proof fn lemma_user_override(
    layers: Seq<Map<(ContextId, KeyChord), Command>>,
    top: Map<(ContextId, KeyChord), Command>,
    context: ContextId,
    chord: KeyChord,
    command: Command,
)
    requires
        layer_resolve_spec(top, context, chord) == Some(command),
    ensures
        stack_resolve_spec(layers.push(top), context, chord) == Some(command),
{
    lemma_push_overrides(layers, top, context, chord);
}

} // verus!
