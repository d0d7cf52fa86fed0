//! What a run of a prompt keeps: the outputs of the nodes executed so far,
//! and how a node's inputs are resolved against them.

use vstd::prelude::*;
use crate::strmap::StrMap;
use vstd::string::StringExecFns;
use crate::error::ExecutorError;

verus! {

/// The values a node produced, and what it shows in the user interface.
#[derive(Debug, Clone)]
pub struct NodeOutput<V> {
    pub values: Vec<V>,
    pub ui: Option<V>,
}

impl<V> NodeOutput<V> {
    /// Outputs without user interface data.
    pub fn new(values: Vec<V>) -> (r: Self)
        ensures
            r.values == values,
            r.ui is None,
    {
        NodeOutput { values, ui: None }
    }

    /// The same outputs with user interface data.
    pub fn with_ui(self, ui: V) -> (r: Self)
        ensures
            r.values == self.values,
            r.ui == Some(ui),
    {
        NodeOutput { values: self.values, ui: Some(ui) }
    }

    /// The value at an output index.
    pub fn get(&self, index: usize) -> (r: Option<&V>)
        ensures
            match r {
                Some(v) => index < self.values@.len() && *v == self.values@[index as int],
                None => index >= self.values@.len(),
            },
    {
        if index < self.values.len() {
            Some(&self.values[index])
        } else {
            None
        }
    }

    /// Number of output values.
    pub fn len(&self) -> (r: usize)
        ensures
            r == self.values@.len(),
    {
        self.values.len()
    }

    /// Are there no output values?
    pub fn is_empty(&self) -> (r: bool)
        ensures
            r == (self.values@.len() == 0),
    {
        self.values.len() == 0
    }
}

/// A node input as the prompt gives it: a literal value, or a link to
/// output `from_socket` of node `from_node` (`[node_id, socket]`); a part of
/// a link that is not a string, or not an unsigned integer, is `None`.
#[derive(Debug, Clone)]
pub enum InputValue<V> {
    Literal(V),
    Link { from_node: Option<String>, from_socket: Option<u64> },
}

/// `Err(e)` is the error a lookup of output `index` of node `node_id`
/// gives, or `Ok(v)` the value, over the outputs kept.
pub open spec fn output_lookup<V>(
    outputs: Map<Seq<char>, NodeOutput<V>>,
    node_id: Seq<char>,
    index: int,
    r: Result<&V, ExecutorError>,
) -> bool {
    if !outputs.contains_key(node_id) {
        r matches Err(ExecutorError::NodeNotFound { node_id: n }) && n@ == node_id
    } else if index >= outputs[node_id].values@.len() {
        r matches Err(ExecutorError::OutputIndexOutOfBounds { node_id: n, index: i, max: m })
            && n@ == node_id && i == index && m == outputs[node_id].values@.len()
    } else {
        r matches Ok(v) && *v == outputs[node_id].values@[index]
    }
}

/// The outcome of resolving input `input_name` of node `node_id` whose
/// value is `value`: a literal is itself; a link is the linked output, or
/// an error where the link is malformed.
pub open spec fn resolution<V>(
    outputs: Map<Seq<char>, NodeOutput<V>>,
    node_id: Seq<char>,
    input_name: Seq<char>,
    value: InputValue<V>,
    r: Result<&V, ExecutorError>,
) -> bool {
    match value {
        InputValue::Literal(v) => r matches Ok(x) && *x == v,
        InputValue::Link { from_node, from_socket } => match from_node {
            None => r matches Err(ExecutorError::NodeExecutionFailed { node_id: n, message: m })
                && n@ == node_id && m@ == "Invalid link node id for input '"@ + input_name + "'"@,
            Some(f) => match from_socket {
                None => r matches Err(ExecutorError::NodeExecutionFailed { node_id: n, message: m })
                    && n@ == node_id && m@ == "Invalid link socket index for input '"@ + input_name
                    + "'"@,
                Some(s) => output_lookup(outputs, f@, (s as usize) as int, r),
            },
        },
    }
}

/// The input resolves to some value.
pub open spec fn resolvable<V>(
    outputs: Map<Seq<char>, NodeOutput<V>>,
    node_id: Seq<char>,
    input_name: Seq<char>,
    value: InputValue<V>,
) -> bool {
    exists|x: &V| resolution(outputs, node_id, input_name, value, Ok(x))
}

/// Input `k` is the first of `inputs` that fails to resolve, with error `e`.
pub open spec fn first_failure<V>(
    outputs: Map<Seq<char>, NodeOutput<V>>,
    node_id: Seq<char>,
    inputs: Seq<(String, InputValue<V>)>,
    k: int,
    e: ExecutorError,
) -> bool {
    &&& 0 <= k < inputs.len()
    &&& resolution(outputs, node_id, inputs[k].0@, inputs[k].1, Err(e))
    &&& forall|j: int| 0 <= j < k ==> #[trigger] resolvable(outputs, node_id, inputs[j].0@, inputs[j].1)
}

/// An input that resolves to an error resolves to no value.
proof fn lemma_resolution_exclusive<V>(
    outputs: Map<Seq<char>, NodeOutput<V>>,
    node_id: Seq<char>,
    input_name: Seq<char>,
    value: InputValue<V>,
    e: ExecutorError,
)
    requires
        resolution(outputs, node_id, input_name, value, Err(e)),
    ensures
        !resolvable(outputs, node_id, input_name, value),
{
    if resolvable(outputs, node_id, input_name, value) {
        let x = choose|x: &V| resolution(outputs, node_id, input_name, value, Ok(x));
        assert(resolution(outputs, node_id, input_name, value, Ok(x)));
    }
}

/// An input resolves in one way only: two outcomes of resolving it, one of
/// them a value, are the same.
proof fn lemma_resolution_unique<V>(
    outputs: Map<Seq<char>, NodeOutput<V>>,
    node_id: Seq<char>,
    input_name: Seq<char>,
    value: InputValue<V>,
    x: &V,
    r: Result<&V, ExecutorError>,
)
    requires
        resolution(outputs, node_id, input_name, value, Ok(x)),
        resolution(outputs, node_id, input_name, value, r),
    ensures
        r == Ok::<&V, ExecutorError>(x),
{
}

/// Law: resolving all inputs of a node agrees with resolving each alone: where
/// `each` gives, for every input, what resolving it alone gives, all inputs
/// resolve exactly when each of them resolves to a value, and every value
/// that an input resolves to is the one that resolving it alone gives.
pub proof fn lemma_all_inputs_resolve_as_each<V>(
    outputs: Map<Seq<char>, NodeOutput<V>>,
    node_id: Seq<char>,
    inputs: Map<Seq<char>, InputValue<V>>,
    each: spec_fn(Seq<char>) -> Result<&V, ExecutorError>,
)
    requires
        forall|k: Seq<char>| #[trigger] inputs.contains_key(k) ==> resolution(outputs, node_id, k, inputs[k], each(k)),
    ensures
        (forall|k: Seq<char>| #[trigger] inputs.contains_key(k) ==> resolvable(outputs, node_id, k, inputs[k]))
            <==> (forall|k: Seq<char>| #[trigger] inputs.contains_key(k) ==> each(k) is Ok),
        forall|k: Seq<char>, x: &V|
            inputs.contains_key(k) && #[trigger] resolution(outputs, node_id, k, inputs[k], Ok(x))
                ==> each(k) == Ok::<&V, ExecutorError>(x),
{
    assert forall|k: Seq<char>| #[trigger] inputs.contains_key(k) implies (resolvable(outputs, node_id, k, inputs[k])
        <==> each(k) is Ok) by {
        match each(k) {
            Ok(x) => {
                assert(resolution(outputs, node_id, k, inputs[k], Ok(x)));
            },
            Err(e) => {
                lemma_resolution_exclusive(outputs, node_id, k, inputs[k], e);
            },
        }
    }
    assert forall|k: Seq<char>, x: &V|
        inputs.contains_key(k) && #[trigger] resolution(outputs, node_id, k, inputs[k], Ok(x)) implies each(k)
        == Ok::<&V, ExecutorError>(x) by {
        lemma_resolution_unique(outputs, node_id, k, inputs[k], x, each(k));
    }
}

/// The state of a run: outputs by node id, the prompt `D`, the backend `B`,
/// extra data by key, and the prompt's id.
#[verifier::reject_recursive_types(V)]
pub struct ExecutionContext<V, D, B> {
    outputs: StrMap<NodeOutput<V>>,
    dynprompt: D,
    backend: B,
    extra_data: StrMap<V>,
    prompt_id: String,
}

impl<V, D, B> ExecutionContext<V, D, B> {
    /// The outputs kept, by node id.
    pub closed spec fn outputs_view(&self) -> Map<Seq<char>, NodeOutput<V>> {
        self.outputs@
    }

    /// The extra data, by key.
    pub closed spec fn extra_view(&self) -> Map<Seq<char>, V> {
        self.extra_data@
    }

    /// The prompt's id.
    pub closed spec fn prompt_id_view(&self) -> Seq<char> {
        self.prompt_id@
    }

    /// The prompt.
    pub closed spec fn dynprompt_spec(&self) -> &D {
        &self.dynprompt
    }

    /// The backend.
    pub closed spec fn backend_spec(&self) -> &B {
        &self.backend
    }

    /// A run that has produced nothing yet.
    pub fn new(dynprompt: D, backend: B, prompt_id: String) -> (r: Self)
        ensures
            r.outputs_view() == Map::<Seq<char>, NodeOutput<V>>::empty(),
            r.extra_view() == Map::<Seq<char>, V>::empty(),
            r.prompt_id_view() == prompt_id@,
            *r.dynprompt_spec() == dynprompt,
            *r.backend_spec() == backend,
    {
        ExecutionContext {
            outputs: StrMap::new(),
            dynprompt,
            backend,
            extra_data: StrMap::new(),
            prompt_id,
        }
    }

    /// The same run with this extra data.
    pub fn with_extra_data(self, extra: StrMap<V>) -> (r: Self)
        ensures
            r.outputs_view() == self.outputs_view(),
            r.extra_view() == extra@,
            r.prompt_id_view() == self.prompt_id_view(),
            *r.dynprompt_spec() == *self.dynprompt_spec(),
            *r.backend_spec() == *self.backend_spec(),
    {
        ExecutionContext {
            outputs: self.outputs,
            dynprompt: self.dynprompt,
            backend: self.backend,
            extra_data: extra,
            prompt_id: self.prompt_id,
        }
    }

    /// Keeps a node's outputs (replacing earlier ones of that node).
    pub fn set_output(&mut self, node_id: String, output: NodeOutput<V>)
        ensures
            final(self).outputs_view() == old(self).outputs_view().insert(node_id@, output),
            final(self).extra_view() == old(self).extra_view(),
            final(self).prompt_id_view() == old(self).prompt_id_view(),
            *final(self).dynprompt_spec() == *old(self).dynprompt_spec(),
            *final(self).backend_spec() == *old(self).backend_spec(),
    {
        self.outputs.insert(node_id, output);
    }

    /// A node's outputs, if kept.
    pub fn get_output(&self, node_id: &str) -> (r: Option<&NodeOutput<V>>)
        ensures
            match r {
                Some(o) => self.outputs_view().contains_key(node_id@) && *o == self.outputs_view()[node_id@],
                None => !self.outputs_view().contains_key(node_id@),
            },
    {
        self.outputs.get(node_id)
    }

    /// Output `output_index` of node `node_id`: see [`output_lookup`].
    pub fn get_output_value(&self, node_id: &str, output_index: usize) -> (r: Result<&V, ExecutorError>)
        ensures
            output_lookup(self.outputs_view(), node_id@, output_index as int, r),
    {
        match self.outputs.get(node_id) {
            None => Err(ExecutorError::NodeNotFound { node_id: String::from_str(node_id) }),
            Some(output) => match output.get(output_index) {
                Some(v) => Ok(v),
                None => Err(
                    ExecutorError::OutputIndexOutOfBounds {
                        node_id: String::from_str(node_id),
                        index: output_index,
                        max: output.len(),
                    },
                ),
            },
        }
    }

    fn resolve_value<'a>(&'a self, node_id: &str, input_name: &str, value: &'a InputValue<V>) -> (r: Result<&'a V, ExecutorError>)
        ensures
            resolution(self.outputs_view(), node_id@, input_name@, *value, r),
    {
        match value {
            InputValue::Literal(v) => Ok(v),
            InputValue::Link { from_node, from_socket } => match from_node {
                None => {
                    let mut message = String::from_str("Invalid link node id for input '");
                    message.append(input_name);
                    message.append("'");
                    Err(ExecutorError::NodeExecutionFailed { node_id: String::from_str(node_id), message })
                },
                Some(f) => match from_socket {
                    None => {
                        let mut message = String::from_str("Invalid link socket index for input '");
                        message.append(input_name);
                        message.append("'");
                        Err(ExecutorError::NodeExecutionFailed { node_id: String::from_str(node_id), message })
                    },
                    Some(s) => self.get_output_value(f.as_str(), *s as usize),
                },
            },
        }
    }

    /// Resolves input `input_name` of node `node_id`, whose inputs the
    /// prompt gives as `node_inputs` (`None`: the prompt has no such node).
    pub fn resolve_input<'a>(
        &'a self,
        node_id: &str,
        input_name: &str,
        node_inputs: Option<&'a StrMap<InputValue<V>>>,
    ) -> (r: Result<&'a V, ExecutorError>)
        ensures
            match node_inputs {
                None => r matches Err(ExecutorError::NodeNotFound { node_id: n }) && n@ == node_id@,
                Some(inputs) => if !inputs@.contains_key(input_name@) {
                    r matches Err(ExecutorError::MissingInput { node_id: n, input: i }) && n@
                        == node_id@ && i@ == input_name@
                } else {
                    resolution(self.outputs_view(), node_id@, input_name@, inputs@[input_name@], r)
                },
            },
    {
        match node_inputs {
            None => Err(ExecutorError::NodeNotFound { node_id: String::from_str(node_id) }),
            Some(inputs) => match inputs.get(input_name) {
                None => Err(
                    ExecutorError::MissingInput {
                        node_id: String::from_str(node_id),
                        input: String::from_str(input_name),
                    },
                ),
                Some(value) => self.resolve_value(node_id, input_name, value),
            },
        }
    }

    fn resolve_list<'a>(&'a self, node_id: &str, inputs: &'a Vec<(String, InputValue<V>)>) -> (r:
        Result<Vec<(&'a str, &'a V)>, ExecutorError>)
        ensures
            match r {
                Ok(v) => v@.len() == inputs@.len() && forall|j: int| 0 <= j < v@.len() ==> {
                    &&& (#[trigger] v@[j]).0@ == inputs@[j].0@
                    &&& resolution(self.outputs_view(), node_id@, inputs@[j].0@, inputs@[j].1, Ok(v@[j].1))
                },
                Err(e) => exists|k: int| #[trigger] first_failure(self.outputs_view(), node_id@, inputs@, k, e),
            },
    {
        let mut out: Vec<(&'a str, &'a V)> = Vec::new();
        let mut i: usize = 0;
        while i < inputs.len()
            invariant
                i <= inputs@.len(),
                out@.len() == i,
                forall|j: int| 0 <= j < i ==> {
                    &&& (#[trigger] out@[j]).0@ == inputs@[j].0@
                    &&& resolution(self.outputs_view(), node_id@, inputs@[j].0@, inputs@[j].1, Ok(out@[j].1))
                },
            decreases inputs@.len() - i,
        {
            let name = inputs[i].0.as_str();
            match self.resolve_value(node_id, name, &inputs[i].1) {
                Ok(v) => {
                    out.push((name, v));
                },
                Err(e) => {
                    assert forall|j: int| 0 <= j < i implies #[trigger] resolvable(
                        self.outputs_view(),
                        node_id@,
                        inputs@[j].0@,
                        inputs@[j].1,
                    ) by {
                        assert(resolution(self.outputs_view(), node_id@, inputs@[j].0@, inputs@[j].1, Ok(out@[j].1)));
                    }
                    assert(first_failure(self.outputs_view(), node_id@, inputs@, i as int, e));
                    return Err(e);
                },
            }
            i = i + 1;
        }
        Ok(out)
    }

    /// Resolves every input of node `node_id`, whose inputs the prompt gives
    /// as `node_inputs` (`None`: the prompt has no such node). The result
    /// holds each input once, with its value; where some input fails to
    /// resolve, the result is that failure (the first in the map's order).
    pub fn resolve_all_inputs<'a>(
        &'a self,
        node_id: &str,
        node_inputs: Option<&'a StrMap<InputValue<V>>>,
    ) -> (r: Result<Vec<(&'a str, &'a V)>, ExecutorError>)
        ensures
            match node_inputs {
                None => r matches Err(ExecutorError::NodeNotFound { node_id: n }) && n@ == node_id@,
                Some(inputs) => {
                    &&& r is Ok <==> forall|k: Seq<char>| #[trigger] inputs@.contains_key(k)
                        ==> resolvable(self.outputs_view(), node_id@, k, inputs@[k])
                    &&& match r {
                        Ok(v) => {
                            &&& forall|j: int| 0 <= j < v@.len() ==> {
                                &&& inputs@.contains_key((#[trigger] v@[j]).0@)
                                &&& resolution(self.outputs_view(), node_id@, v@[j].0@, inputs@[v@[j].0@], Ok(v@[j].1))
                            }
                            &&& forall|k: Seq<char>| #[trigger] inputs@.contains_key(k) ==> exists|j: int|
                                0 <= j < v@.len() && (#[trigger] v@[j]).0@ == k
                            &&& forall|i: int, j: int| 0 <= i < j < v@.len() ==> (#[trigger] v@[i]).0@
                                != (#[trigger] v@[j]).0@
                        },
                        Err(e) => exists|k: Seq<char>| #[trigger] inputs@.contains_key(k) && resolution(
                            self.outputs_view(),
                            node_id@,
                            k,
                            inputs@[k],
                            Err(e),
                        ),
                    }
                },
            },
    {
        match node_inputs {
            None => Err(ExecutorError::NodeNotFound { node_id: String::from_str(node_id) }),
            Some(inputs) => {
                let entries = inputs.entries();
                let r = self.resolve_list(node_id, entries);
                let ghost gr = r;
                proof {
                    let o = self.outputs_view();
                    match gr {
                        Ok(v) => {
                            assert forall|k: Seq<char>| #[trigger] inputs@.contains_key(k) implies resolvable(
                                o,
                                node_id@,
                                k,
                                inputs@[k],
                            ) by {
                                let i = choose|i: int| 0 <= i < entries@.len() && (#[trigger] entries@[i]).0@ == k;
                                assert(v@[i].0@ == k);
                                assert(resolution(o, node_id@, k, inputs@[k], Ok(v@[i].1)));
                            }
                            assert forall|k: Seq<char>| #[trigger] inputs@.contains_key(k) implies exists|j: int|
                                0 <= j < v@.len() && (#[trigger] v@[j]).0@ == k by {
                                let i = choose|i: int| 0 <= i < entries@.len() && (#[trigger] entries@[i]).0@ == k;
                                assert(v@[i].0@ == k);
                            }
                            assert forall|i: int, j: int| 0 <= i < j < v@.len() implies (#[trigger] v@[i]).0@
                                != (#[trigger] v@[j]).0@ by {
                                assert(entries@[i].0@ != entries@[j].0@);
                            }
                        },
                        Err(e) => {
                            let kk = choose|kk: int| #[trigger] first_failure(o, node_id@, entries@, kk, e);
                            let k = entries@[kk].0@;
                            assert(inputs@.contains_key(k));
                            lemma_resolution_exclusive(o, node_id@, k, inputs@[k], e);
                        },
                    }
                }
                r
            },
        }
    }

    /// The prompt.
    pub fn dynprompt(&self) -> (r: &D)
        ensures
            *r == *self.dynprompt_spec(),
    {
        &self.dynprompt
    }

    /// The backend.
    pub fn backend(&self) -> (r: &B)
        ensures
            *r == *self.backend_spec(),
    {
        &self.backend
    }

    /// All extra data.
    pub fn extra_data(&self) -> (r: &StrMap<V>)
        ensures
            r@ == self.extra_view(),
    {
        &self.extra_data
    }

    /// One item of extra data.
    pub fn get_extra_data(&self, key: &str) -> (r: Option<&V>)
        ensures
            match r {
                Some(v) => self.extra_view().contains_key(key@) && *v == self.extra_view()[key@],
                None => !self.extra_view().contains_key(key@),
            },
    {
        self.extra_data.get(key)
    }

    /// The prompt's id.
    pub fn prompt_id(&self) -> (r: &str)
        ensures
            r@ == self.prompt_id_view(),
    {
        self.prompt_id.as_str()
    }

    /// All outputs kept, by node id.
    pub fn all_outputs(&self) -> (r: &StrMap<NodeOutput<V>>)
        ensures
            r@ == self.outputs_view(),
    {
        &self.outputs
    }

    /// Has the node's output been kept?
    pub fn has_output(&self, node_id: &str) -> (r: bool)
        ensures
            r == self.outputs_view().contains_key(node_id@),
    {
        self.outputs.contains_key(node_id)
    }

    /// The outputs, taken out of the run.
    pub fn into_outputs(self) -> (r: StrMap<NodeOutput<V>>)
        ensures
            r@ == self.outputs_view(),
    {
        self.outputs
    }
}


/// Law: once a node's outputs are kept, looking up one of its outputs
/// gives that output.
pub proof fn lemma_lookup_after_set<V>(
    outputs: Map<Seq<char>, NodeOutput<V>>,
    node_id: Seq<char>,
    output: NodeOutput<V>,
    index: int,
    r: Result<&V, ExecutorError>,
)
    requires
        0 <= index < output.values@.len(),
    ensures
        output_lookup(outputs.insert(node_id, output), node_id, index, r) <==> (r matches Ok(v)
            && *v == output.values@[index]),
{
}

/// Law: keeping a node's outputs does not change what looking up another
/// node's outputs gives.
pub proof fn lemma_lookup_other_after_set<V>(
    outputs: Map<Seq<char>, NodeOutput<V>>,
    node_id: Seq<char>,
    output: NodeOutput<V>,
    other: Seq<char>,
    index: int,
    r: Result<&V, ExecutorError>,
)
    requires
        other != node_id,
    ensures
        output_lookup(outputs.insert(node_id, output), other, index, r) == output_lookup(
            outputs,
            other,
            index,
            r,
        ),
{
}

} // verus!
