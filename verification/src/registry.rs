//! The registry of node types: each node type's class definition and the
//! function that executes nodes of that type, by class type name.

use vstd::prelude::*;
use crate::strmap::StrMap;

verus! {

/// The kinds of values that flow between nodes.
#[derive(Debug, Clone, PartialEq, Eq)]
pub enum IoType {
    Any,
    Audio,
    Boolean,
    Clip,
    ClipVision,
    Conditioning,
    ControlNet,
    Custom(String),
    Embedding,
    Float,
    Gligen,
    GuideData,
    Guider,
    GuiderParameters,
    Image,
    Int,
    Latent,
    LatentUpscaleModel,
    Llm,
    Lora,
    Mask,
    Model,
    Noise,
    Photomaker,
    RelayOptions,
    Sampler,
    Sigmas,
    String,
    StyleModel,
    UpscaleModel,
    Vae,
    Video,
}

/// The definition of a node type. `I` describes its inputs; the registry
/// only carries it.
#[derive(Debug, Clone)]
pub struct NodeClassDef<I> {
    pub class_type: String,
    pub display_name: String,
    pub category: String,
    pub input_types: I,
    pub output_types: Vec<IoType>,
    pub output_names: Vec<String>,
    pub output_is_list: Vec<bool>,
    pub is_output_node: bool,
    pub has_intermediate_output: bool,
    pub not_idempotent: bool,
    pub function_name: String,
}

/// A registered node type: its definition and its execute function.
pub struct NodeEntry<I, F> {
    pub class_def: NodeClassDef<I>,
    pub execute_fn: F,
}

/// Node types by class type name. `F` is the type of the execute functions.
#[verifier::reject_recursive_types(I)]
#[verifier::reject_recursive_types(F)]
pub struct NodeRegistry<I, F> {
    nodes: StrMap<NodeEntry<I, F>>,
}

impl<I, F> NodeRegistry<I, F> {
    /// Every type is registered under its own class type name.
    #[verifier::type_invariant]
    spec fn keyed(self) -> bool {
        forall|k: Seq<char>| #[trigger] self.nodes@.contains_key(k) ==> self.nodes@[k].class_def.class_type@ == k
    }

    /// The registered types: class type name to entry.
    pub closed spec fn view(&self) -> Map<Seq<char>, NodeEntry<I, F>> {
        self.nodes@
    }

    /// The number of registered types.
    pub closed spec fn count(&self) -> nat {
        self.nodes.entries_view().len()
    }

    /// An empty registry.
    pub fn new() -> (r: Self)
        ensures
            r.view() == Map::<Seq<char>, NodeEntry<I, F>>::empty(),
    {
        NodeRegistry { nodes: StrMap::new() }
    }

    /// Registers a node type under its class type name; a type registered
    /// before under that name is replaced.
    pub fn register(&mut self, class_def: NodeClassDef<I>, execute_fn: F)
        ensures
            final(self).view() == old(self).view().insert(
                class_def.class_type@,
                NodeEntry { class_def, execute_fn },
            ),
    {
        proof {
            use_type_invariant(&*self);
        }
        let key = class_def.class_type.clone();
        let mut nodes = StrMap::new();
        std::mem::swap(&mut nodes, &mut self.nodes);
        nodes.insert(key, NodeEntry { class_def, execute_fn });
        self.nodes = nodes;
    }

    /// The definition of a node type.
    pub fn get_class_def(&self, class_type: &str) -> (r: Option<&NodeClassDef<I>>)
        ensures
            match r {
                Some(d) => self.view().contains_key(class_type@) && *d == self.view()[class_type@].class_def
                    && d.class_type@ == class_type@,
                None => !self.view().contains_key(class_type@),
            },
    {
        proof {
            use_type_invariant(self);
        }
        match self.nodes.get(class_type) {
            Some(e) => Some(&e.class_def),
            None => None,
        }
    }

    /// The execute function of a node type.
    pub fn get_execute_fn(&self, class_type: &str) -> (r: Option<&F>)
        ensures
            match r {
                Some(f) => self.view().contains_key(class_type@) && *f == self.view()[class_type@].execute_fn,
                None => !self.view().contains_key(class_type@),
            },
    {
        match self.nodes.get(class_type) {
            Some(e) => Some(&e.execute_fn),
            None => None,
        }
    }

    /// Is a node type registered under this name?
    pub fn has_node(&self, class_type: &str) -> (r: bool)
        ensures
            r == self.view().contains_key(class_type@),
    {
        self.nodes.contains_key(class_type)
    }

    /// The names of all registered node types, each once.
    pub fn registered_types(&self) -> (r: Vec<&str>)
        ensures
            r@.len() == self.count(),
            forall|i: int, j: int| 0 <= i < j < r@.len() ==> (#[trigger] r@[i])@ != (#[trigger] r@[j])@,
            forall|i: int| 0 <= i < r@.len() ==> self.view().contains_key((#[trigger] r@[i])@),
            forall|k: Seq<char>| #[trigger] self.view().contains_key(k) ==> exists|i: int|
                0 <= i < r@.len() && (#[trigger] r@[i])@ == k,
    {
        let entries = self.nodes.entries();
        let mut r: Vec<&str> = Vec::new();
        let mut i: usize = 0;
        while i < entries.len()
            invariant
                i <= entries@.len(),
                r@.len() == i,
                forall|j: int| 0 <= j < i ==> (#[trigger] r@[j])@ == entries@[j].0@,
            decreases entries@.len() - i,
        {
            r.push(entries[i].0.as_str());
            i = i + 1;
        }
        assert forall|k: Seq<char>| #[trigger] self.view().contains_key(k) implies exists|j: int|
            0 <= j < r@.len() && (#[trigger] r@[j])@ == k by {
            let j = choose|j: int| 0 <= j < entries@.len() && (#[trigger] entries@[j]).0@ == k;
            assert(r@[j]@ == k);
        }
        assert forall|a: int, b: int| 0 <= a < b < r@.len() implies (#[trigger] r@[a])@ != (#[trigger] r@[b])@ by {
            assert(entries@[a].0@ != entries@[b].0@);
        }
        assert forall|a: int| 0 <= a < r@.len() implies self.view().contains_key((#[trigger] r@[a])@) by {
            assert(self.nodes@.contains_key(entries@[a].0@));
        }
        r
    }

    /// Every registered node type: its name and its definition.
    pub fn get_all_class_defs(&self) -> (r: Vec<(&str, &NodeClassDef<I>)>)
        ensures
            r@.len() == self.count(),
            forall|i: int| 0 <= i < r@.len() ==> (#[trigger] r@[i]).0@ == r@[i].1.class_type@,
            forall|i: int, j: int| 0 <= i < j < r@.len() ==> (#[trigger] r@[i]).0@ != (#[trigger] r@[j]).0@,
            forall|i: int| 0 <= i < r@.len() ==> self.view().contains_key((#[trigger] r@[i]).0@)
                && *r@[i].1 == self.view()[r@[i].0@].class_def,
            forall|k: Seq<char>| #[trigger] self.view().contains_key(k) ==> exists|i: int|
                0 <= i < r@.len() && (#[trigger] r@[i]).0@ == k,
    {
        proof {
            use_type_invariant(self);
        }
        let entries = self.nodes.entries();
        let mut r: Vec<(&str, &NodeClassDef<I>)> = Vec::new();
        let mut i: usize = 0;
        while i < entries.len()
            invariant
                i <= entries@.len(),
                r@.len() == i,
                forall|j: int| 0 <= j < i ==> (#[trigger] r@[j]).0@ == entries@[j].0@,
                forall|j: int| 0 <= j < i ==> *(#[trigger] r@[j]).1 == entries@[j].1.class_def,
            decreases entries@.len() - i,
        {
            r.push((entries[i].0.as_str(), &entries[i].1.class_def));
            i = i + 1;
        }
        assert forall|k: Seq<char>| #[trigger] self.view().contains_key(k) implies exists|j: int|
            0 <= j < r@.len() && (#[trigger] r@[j]).0@ == k by {
            let j = choose|j: int| 0 <= j < entries@.len() && (#[trigger] entries@[j]).0@ == k;
            assert(r@[j].0@ == k);
        }
        assert forall|a: int, b: int| 0 <= a < b < r@.len() implies (#[trigger] r@[a]).0@ != (#[trigger] r@[b]).0@ by {
            assert(entries@[a].0@ != entries@[b].0@);
        }
        assert forall|a: int| 0 <= a < r@.len() implies self.view().contains_key((#[trigger] r@[a]).0@)
            && *r@[a].1 == self.view()[r@[a].0@].class_def by {
            assert(self.nodes@.contains_key(entries@[a].0@));
        }
        assert forall|a: int| 0 <= a < r@.len() implies (#[trigger] r@[a]).0@ == r@[a].1.class_type@ by {
            assert(self.nodes@.contains_key(entries@[a].0@));
        }
        r
    }

    /// Is the named type registered and an output node?
    pub fn is_output_node(&self, class_type: &str) -> (r: bool)
        ensures
            r == (self.view().contains_key(class_type@) && self.view()[class_type@].class_def.is_output_node),
    {
        match self.nodes.get(class_type) {
            Some(e) => e.class_def.is_output_node,
            None => false,
        }
    }

    /// The output types of a registered node type.
    pub fn output_types(&self, class_type: &str) -> (r: Option<&[IoType]>)
        ensures
            match r {
                Some(t) => self.view().contains_key(class_type@) && t@ == self.view()[class_type@].class_def.output_types@,
                None => !self.view().contains_key(class_type@),
            },
    {
        match self.nodes.get(class_type) {
            Some(e) => Some(e.class_def.output_types.as_slice()),
            None => None,
        }
    }

    /// The output names of a registered node type.
    pub fn output_names(&self, class_type: &str) -> (r: Option<&[String]>)
        ensures
            match r {
                Some(t) => self.view().contains_key(class_type@) && t@ == self.view()[class_type@].class_def.output_names@,
                None => !self.view().contains_key(class_type@),
            },
    {
        match self.nodes.get(class_type) {
            Some(e) => Some(e.class_def.output_names.as_slice()),
            None => None,
        }
    }
}

impl<I, F> Default for NodeRegistry<I, F> {
    fn default() -> (r: Self)
        ensures
            r.view() == Map::<Seq<char>, NodeEntry<I, F>>::empty(),
    {
        Self::new()
    }
}


/// Law: after a node type is registered, its name finds it, and every
/// other name finds what it found before.
pub proof fn lemma_register_then_lookup<I, F>(
    types: Map<Seq<char>, NodeEntry<I, F>>,
    class_def: NodeClassDef<I>,
    execute_fn: F,
    name: Seq<char>,
)
    ensures
        ({
            let after = types.insert(class_def.class_type@, NodeEntry { class_def, execute_fn });
            &&& after.contains_key(class_def.class_type@)
            &&& after[class_def.class_type@] == NodeEntry { class_def, execute_fn }
            &&& name != class_def.class_type@ ==> (after.contains_key(name) == types.contains_key(name)
                && (types.contains_key(name) ==> after[name] == types[name]))
        }),
{
}

} // verus!
