//! The executor: validating a prompt against the registry, and the
//! decisions of running one (which nodes are outputs, what a node's
//! outcome does to the run, what a finished run reports).

use vstd::prelude::*;
use crate::strmap::StrMap;
use vstd::string::StringExecFns;
use crate::error::{ErrorDetail, ExecutorError, NodeErrorInfo, ValidationResult, error_message};
use crate::registry::NodeRegistry;
use crate::execution_context::{ExecutionContext, NodeOutput};
use crate::text::{decimal, push_decimal, str_eq};

verus! {

/// A node of a prompt as validation sees it: its id and its `class_type`,
/// where it has one that is a string.
#[derive(Debug, Clone)]
pub struct PromptNode {
    pub node_id: String,
    pub class_type: Option<String>,
}

/// No two nodes of a prompt share an id (a prompt maps ids to nodes).
pub open spec fn distinct_ids(prompt: Seq<PromptNode>) -> bool {
    forall|i: int, j: int|
        0 <= i < j < prompt.len() ==> (#[trigger] prompt[i]).node_id@ != (
        #[trigger] prompt[j]).node_id@
}

/// The problem validation finds with a node, if any: it has no class type,
/// or its class type is not registered.
pub open spec fn node_is_bad<I, F>(reg: Map<Seq<char>, crate::registry::NodeEntry<I, F>>, n: PromptNode) -> bool {
    match n.class_type {
        None => true,
        Some(ct) => !reg.contains_key(ct@),
    }
}

/// The node is of a registered output type.
pub open spec fn node_is_output<I, F>(reg: Map<Seq<char>, crate::registry::NodeEntry<I, F>>, n: PromptNode) -> bool {
    match n.class_type {
        None => false,
        Some(ct) => reg.contains_key(ct@) && reg[ct@].class_def.is_output_node,
    }
}

/// Number of nodes with a problem.
pub open spec fn bad_count<I, F>(reg: Map<Seq<char>, crate::registry::NodeEntry<I, F>>, prompt: Seq<PromptNode>) -> nat
    decreases prompt.len(),
{
    if prompt.len() == 0 {
        0
    } else {
        bad_count(reg, prompt.drop_last()) + if node_is_bad(reg, prompt.last()) {
            1nat
        } else {
            0nat
        }
    }
}

/// The detail that validation reports for a node without a usable
/// `class_type`, or with an unregistered one.
pub open spec fn is_node_error_detail(e: ErrorDetail, n: PromptNode) -> bool {
    &&& e.error_type@ == "missing_node_type"@
    &&& e.details@ == "Node ID '"@ + n.node_id@ + "'"@
    &&& match n.class_type {
        None => e.message@ == "Node has no class_type"@,
        Some(ct) => e.message@ == "Node type '"@ + ct@ + "' not found"@,
    }
}

/// The report validation makes on a node with a problem.
pub open spec fn is_node_error(info: NodeErrorInfo, n: PromptNode) -> bool {
    &&& info.node_id@ == n.node_id@
    &&& info.class_type@ == match n.class_type {
        None => Seq::<char>::empty(),
        Some(ct) => ct@,
    }
    &&& info.errors@.len() == 1
    &&& is_node_error_detail(info.errors@[0], n)
}

/// Runs prompts: the registry of node types, the inference backend `B`, and
/// the cache `C` (none: nothing is cached).
#[verifier::reject_recursive_types(I)]
#[verifier::reject_recursive_types(F)]
pub struct Executor<I, F, B, C> {
    registry: NodeRegistry<I, F>,
    backend: B,
    cache: Option<C>,
}

impl<I, F, B, C> Executor<I, F, B, C> {
    /// The executor's registry.
    pub closed spec fn registry_spec(&self) -> &NodeRegistry<I, F> {
        &self.registry
    }

    /// The executor's backend.
    pub closed spec fn backend_spec(&self) -> &B {
        &self.backend
    }

    /// The executor's cache.
    pub closed spec fn cache_spec(&self) -> Option<C> {
        self.cache
    }

    /// An executor without a cache.
    pub fn new(registry: NodeRegistry<I, F>, backend: B) -> (r: Self)
        ensures
            *r.registry_spec() == registry,
            *r.backend_spec() == backend,
            r.cache_spec() is None,
    {
        Executor { registry, backend, cache: None }
    }

    /// The same executor with a cache.
    pub fn with_cache(self, cache: C) -> (r: Self)
        ensures
            *r.registry_spec() == *self.registry_spec(),
            *r.backend_spec() == *self.backend_spec(),
            r.cache_spec() == Some(cache),
    {
        Executor { registry: self.registry, backend: self.backend, cache: Some(cache) }
    }

    /// The registry.
    pub fn registry(&self) -> (r: &NodeRegistry<I, F>)
        ensures
            *r == *self.registry_spec(),
    {
        &self.registry
    }

    /// The backend.
    pub fn backend(&self) -> (r: &B)
        ensures
            *r == *self.backend_spec(),
    {
        &self.backend
    }

    /// The cache, if any.
    pub fn cache(&self) -> (r: Option<&C>)
        ensures
            match r {
                Some(c) => self.cache_spec() == Some(*c),
                None => self.cache_spec() is None,
            },
    {
        match &self.cache {
            Some(c) => Some(c),
            None => None,
        }
    }

    /// Checks a prompt against the registry: every node must have a
    /// registered class type, and some node must be an output node.
    pub fn validate_prompt(&self, prompt: &Vec<PromptNode>) -> (r: ValidationResult)
        requires
            distinct_ids(prompt@),
        ensures
            ({
                let reg = self.registry_spec().view();
                let bad = bad_count(reg, prompt@);
                let has_output = exists|i: int| 0 <= i < prompt@.len() && node_is_output(reg, #[trigger] prompt@[i]);
                &&& forall|k: Seq<char>| #[trigger] r.node_errors@.contains_key(k) <==> exists|i: int|
                    0 <= i < prompt@.len() && (#[trigger] prompt@[i]).node_id@ == k && node_is_bad(reg, prompt@[i])
                &&& forall|i: int| 0 <= i < prompt@.len() && node_is_bad(reg, #[trigger] prompt@[i])
                    ==> is_node_error(r.node_errors@[prompt@[i].node_id@], prompt@[i])
                &&& r.valid == (bad == 0 && has_output)
                &&& (bad == 0 && has_output) ==> r.error is None
                &&& (bad == 0 && !has_output) ==> (r.error matches Some(e) && e.error_type@
                    == "no_output_nodes"@ && e.message@ == "Prompt has no output nodes"@
                    && e.details@ == "At least one output node is required"@)
                &&& bad > 0 ==> (r.error matches Some(e) && e.error_type@
                    == "prompt_outputs_failed_validation"@ && e.message@
                    == "Prompt outputs failed validation"@ && e.details@ == decimal(bad)
                    + " node(s) have errors"@)
            }),
    {
        let ghost reg = self.registry.view();
        let mut node_errors: StrMap<NodeErrorInfo> = StrMap::new();
        let mut bad: usize = 0;
        let mut has_output = false;
        let mut i: usize = 0;
        while i < prompt.len()
            invariant
                reg == self.registry.view(),
                distinct_ids(prompt@),
                i <= prompt@.len(),
                bad == bad_count(reg, prompt@.subrange(0, i as int)),
                bad <= i,
                has_output == exists|j: int| 0 <= j < i && node_is_output(reg, #[trigger] prompt@[j]),
                forall|k: Seq<char>| #[trigger] node_errors@.contains_key(k) <==> exists|j: int|
                    0 <= j < i && (#[trigger] prompt@[j]).node_id@ == k && node_is_bad(reg, prompt@[j]),
                forall|j: int| 0 <= j < i && node_is_bad(reg, #[trigger] prompt@[j])
                    ==> is_node_error(node_errors@[prompt@[j].node_id@], prompt@[j]),
            decreases prompt@.len() - i,
        {
            let node = &prompt[i];
            assert(prompt@.subrange(0, i + 1).drop_last() =~= prompt@.subrange(0, i as int));
            let ghost before = node_errors@;
            match &node.class_type {
                None => {
                    let mut details = String::from_str("Node ID '");
                    details.append(node.node_id.as_str());
                    details.append("'");
                    let detail = ErrorDetail {
                        error_type: String::from_str("missing_node_type"),
                        message: String::from_str("Node has no class_type"),
                        details,
                    };
                    let mut errors: Vec<ErrorDetail> = Vec::new();
                    errors.push(detail);
                    let info = NodeErrorInfo {
                        node_id: node.node_id.clone(),
                        class_type: String::new(),
                        errors,
                    };
                    node_errors.insert(node.node_id.clone(), info);
                    bad = bad + 1;
                },
                Some(ct) => {
                    if !self.registry.has_node(ct.as_str()) {
                        let mut message = String::from_str("Node type '");
                        message.append(ct.as_str());
                        message.append("' not found");
                        let mut details = String::from_str("Node ID '");
                        details.append(node.node_id.as_str());
                        details.append("'");
                        let detail = ErrorDetail {
                            error_type: String::from_str("missing_node_type"),
                            message,
                            details,
                        };
                        let mut errors: Vec<ErrorDetail> = Vec::new();
                        errors.push(detail);
                        let info = NodeErrorInfo {
                            node_id: node.node_id.clone(),
                            class_type: ct.clone(),
                            errors,
                        };
                        node_errors.insert(node.node_id.clone(), info);
                        bad = bad + 1;
                    } else if self.registry.is_output_node(ct.as_str()) {
                        has_output = true;
                    }
                },
            }
            proof {
                assert forall|j: int| 0 <= j < i + 1 && node_is_bad(reg, #[trigger] prompt@[j])
                    implies is_node_error(node_errors@[prompt@[j].node_id@], prompt@[j]) by {
                    if j < i {
                        assert(prompt@[j].node_id@ != prompt@[i as int].node_id@);
                    }
                }
            }
            i = i + 1;
        }
        assert(prompt@.subrange(0, prompt@.len() as int) =~= prompt@);
        if !has_output && bad == 0 {
            return ValidationResult {
                valid: false,
                error: Some(
                    ErrorDetail {
                        error_type: String::from_str("no_output_nodes"),
                        message: String::from_str("Prompt has no output nodes"),
                        details: String::from_str("At least one output node is required"),
                    },
                ),
                node_errors,
            };
        }
        if bad > 0 {
            let mut details = String::new();
            push_decimal(&mut details, bad as u64);
            details.append(" node(s) have errors");
            return ValidationResult {
                valid: false,
                error: Some(
                    ErrorDetail {
                        error_type: String::from_str("prompt_outputs_failed_validation"),
                        message: String::from_str("Prompt outputs failed validation"),
                        details,
                    },
                ),
                node_errors,
            };
        }
        ValidationResult { valid: true, error: None, node_errors }
    }
}


/// What a finished run reports: the prompt's id, the outputs of the nodes
/// executed, by node id, and those nodes' ids.
#[verifier::reject_recursive_types(V)]
pub struct ExecutionResult<V> {
    pub prompt_id: String,
    pub outputs: StrMap<NodeOutput<V>>,
    pub executed: Vec<String>,
}

impl<V> ExecutionResult<V> {
    /// A node's outputs.
    pub fn get_output(&self, node_id: &str) -> (r: Option<&NodeOutput<V>>)
        ensures
            match r {
                Some(o) => self.outputs@.contains_key(node_id@) && *o == self.outputs@[node_id@],
                None => !self.outputs@.contains_key(node_id@),
            },
    {
        self.outputs.get(node_id)
    }

    /// Output `index` of a node.
    pub fn output_value(&self, node_id: &str, index: usize) -> (r: Option<&V>)
        ensures
            match r {
                Some(v) => self.outputs@.contains_key(node_id@) && index
                    < self.outputs@[node_id@].values@.len() && *v
                    == self.outputs@[node_id@].values@[index as int],
                None => !self.outputs@.contains_key(node_id@) || index
                    >= self.outputs@[node_id@].values@.len(),
            },
    {
        match self.outputs.get(node_id) {
            Some(o) => o.get(index),
            None => None,
        }
    }
}

/// The views of a list of node ids.
pub open spec fn id_views(v: Seq<String>) -> Seq<Seq<char>> {
    v.map_values(|s: String| s@)
}

/// The record of a run is consistent: no node is listed as executed
/// twice, and the outputs kept are exactly those of the executed nodes.
pub open spec fn run_consistent<V>(outputs: Map<Seq<char>, NodeOutput<V>>, executed: Seq<String>) -> bool {
    &&& id_views(executed).no_duplicates()
    &&& forall|k: Seq<char>| outputs.contains_key(k) <==> id_views(executed).contains(k)
}

/// Law: a run starts consistent: nothing kept, nothing executed.
pub proof fn lemma_fresh_run_consistent<V>()
    ensures
        run_consistent(Map::<Seq<char>, NodeOutput<V>>::empty(), Seq::<String>::empty()),
{
    assert(id_views(Seq::<String>::empty()) =~= Seq::<Seq<char>>::empty());
}

/// Is `id` among the ids of `v`?
fn is_listed(v: &Vec<String>, id: &str) -> (r: bool)
    ensures
        r == id_views(v@).contains(id@),
{
    let mut i: usize = 0;
    while i < v.len()
        invariant
            i <= v@.len(),
            forall|j: int| 0 <= j < i ==> v@[j]@ != id@,
        decreases v@.len() - i,
    {
        if str_eq(v[i].as_str(), id) {
            assert(id_views(v@)[i as int] == id@);
            return true;
        }
        i = i + 1;
    }
    assert forall|j: int| 0 <= j < id_views(v@).len() implies id_views(v@)[j] != id@ by {
        assert(id_views(v@)[j] == v@[j]@);
    }
    false
}

/// Index of the first node of `prompt[i..]` whose id is `id`, or the
/// length of `prompt`.
pub open spec fn index_of_id(prompt: Seq<PromptNode>, id: Seq<char>, i: int) -> int
    decreases prompt.len() - i,
{
    if i < 0 || i >= prompt.len() {
        prompt.len() as int
    } else if prompt[i].node_id@ == id {
        i
    } else {
        index_of_id(prompt, id, i + 1)
    }
}

/// The class type a node names (empty where it names none).
pub open spec fn class_type_of(n: PromptNode) -> Seq<char> {
    match n.class_type {
        Some(ct) => ct@,
        None => Seq::empty(),
    }
}

proof fn lemma_index_of_id(prompt: Seq<PromptNode>, id: Seq<char>, i: int)
    requires
        0 <= i <= prompt.len(),
    ensures
        i <= index_of_id(prompt, id, i) <= prompt.len(),
        index_of_id(prompt, id, i) < prompt.len() ==> prompt[index_of_id(prompt, id, i)].node_id@ == id,
    decreases prompt.len() - i,
{
    if i < prompt.len() && prompt[i].node_id@ != id {
        lemma_index_of_id(prompt, id, i + 1);
    }
}

impl<I, F, B, C> Executor<I, F, B, C> {
    /// The ids of the nodes of a registered output type, in the order
    /// given; `NoOutputNodes` where there is none. A run starts from them.
    pub fn output_node_ids(&self, nodes: &Vec<PromptNode>) -> (r: Result<Vec<String>, ExecutorError>)
        ensures
            ({
                let reg = self.registry_spec().view();
                let chosen = nodes@.filter(|n: PromptNode| node_is_output(reg, n));
                match r {
                    Ok(ids) => chosen.len() > 0 && ids@.len() == chosen.len() && forall|j: int|
                        0 <= j < ids@.len() ==> (#[trigger] ids@[j])@ == chosen[j].node_id@,
                    Err(e) => chosen.len() == 0 && e is NoOutputNodes,
                }
            }),
    {
        let ghost reg = self.registry.view();
        let ghost pred = |n: PromptNode| node_is_output(reg, n);
        let mut ids: Vec<String> = Vec::new();
        let mut i: usize = 0;
        while i < nodes.len()
            invariant
                reg == self.registry.view(),
                pred == (|n: PromptNode| node_is_output(reg, n)),
                i <= nodes@.len(),
                ids@.len() == nodes@.subrange(0, i as int).filter(pred).len(),
                forall|j: int| 0 <= j < ids@.len() ==> (#[trigger] ids@[j])@ == nodes@.subrange(
                    0,
                    i as int,
                ).filter(pred)[j].node_id@,
            decreases nodes@.len() - i,
        {
            let node = &nodes[i];
            let is_out = match &node.class_type {
                Some(ct) => self.registry.is_output_node(ct.as_str()),
                None => false,
            };
            assert(nodes@.subrange(0, i + 1).drop_last() =~= nodes@.subrange(0, i as int));
            reveal_with_fuel(Seq::filter, 1);
            if is_out {
                ids.push(node.node_id.clone());
            }
            i = i + 1;
        }
        assert(nodes@.subrange(0, nodes@.len() as int) =~= nodes@);
        if ids.len() == 0 {
            Err(ExecutorError::NoOutputNodes)
        } else {
            Ok(ids)
        }
    }

    /// The function that executes node `node_id` of a run: the node is the
    /// first of `prompt` with that id (`NodeNotFound` where there is none),
    /// and its class type must be registered (`NodeTypeNotRegistered`
    /// otherwise; a node without a class type names the empty one).
    pub fn execute_fn_for(&self, prompt: &Vec<PromptNode>, node_id: &str) -> (r: Result<&F, ExecutorError>)
        ensures
            ({
                let reg = self.registry_spec().view();
                let k = index_of_id(prompt@, node_id@, 0);
                if k >= prompt@.len() {
                    r matches Err(ExecutorError::NodeNotFound { node_id: n }) && n@ == node_id@
                } else {
                    let ct = class_type_of(prompt@[k]);
                    if reg.contains_key(ct) {
                        r matches Ok(f) && *f == reg[ct].execute_fn
                    } else {
                        r matches Err(ExecutorError::NodeTypeNotRegistered { class_type: c }) && c@ == ct
                    }
                }
            }),
    {
        proof {
            lemma_index_of_id(prompt@, node_id@, 0);
        }
        let mut i: usize = 0;
        while i < prompt.len() && !str_eq(prompt[i].node_id.as_str(), node_id)
            invariant
                i <= prompt@.len(),
                index_of_id(prompt@, node_id@, 0) == index_of_id(prompt@, node_id@, i as int),
            decreases prompt@.len() - i,
        {
            i = i + 1;
        }
        if i >= prompt.len() {
            return Err(ExecutorError::NodeNotFound { node_id: String::from_str(node_id) });
        }
        let ct: &str = match &prompt[i].class_type {
            Some(c) => c.as_str(),
            None => "",
        };
        proof {
            reveal_strlit("");
        }
        assert(ct@ == class_type_of(prompt@[i as int]));
        match self.registry.get_execute_fn(ct) {
            Some(f) => Ok(f),
            None => Err(ExecutorError::NodeTypeNotRegistered { class_type: String::from_str(ct) }),
        }
    }

    /// What a node's outcome does to a run: its outputs are kept (replacing
    /// earlier ones of that node) and it counts as executed, once however
    /// often it runs; a failure ends the run with `NodeExecutionFailed` on
    /// that node, the failure's text as the message, and changes nothing.
    pub fn record_outcome<V, D, B2>(
        ctx: &mut ExecutionContext<V, D, B2>,
        executed: &mut Vec<String>,
        node_id: &str,
        outcome: Result<Vec<V>, ExecutorError>,
    ) -> (r: Result<(), ExecutorError>)
        ensures
            match outcome {
                Ok(values) => {
                    &&& r is Ok
                    &&& final(ctx).outputs_view() == old(ctx).outputs_view().insert(
                        node_id@,
                        NodeOutput { values, ui: None },
                    )
                    &&& if id_views(old(executed)@).contains(node_id@) {
                        final(executed)@ == old(executed)@
                    } else {
                        &&& final(executed)@.len() == old(executed)@.len() + 1
                        &&& final(executed)@.drop_last() == old(executed)@
                        &&& final(executed)@.last()@ == node_id@
                    }
                },
                Err(e) => {
                    &&& r matches Err(ExecutorError::NodeExecutionFailed { node_id: n, message: m })
                        && n@ == node_id@ && m@ == error_message(e)
                    &&& final(ctx).outputs_view() == old(ctx).outputs_view()
                    &&& final(executed)@ == old(executed)@
                },
            },
            run_consistent(old(ctx).outputs_view(), old(executed)@) ==> run_consistent(
                final(ctx).outputs_view(),
                final(executed)@,
            ),
            final(ctx).extra_view() == old(ctx).extra_view(),
            final(ctx).prompt_id_view() == old(ctx).prompt_id_view(),
    {
        match outcome {
            Ok(values) => {
                let ghost before = ctx.outputs_view();
                let ghost ids = id_views(executed@);
                let seen = is_listed(executed, node_id);
                ctx.set_output(String::from_str(node_id), NodeOutput::new(values));
                if !seen {
                    executed.push(String::from_str(node_id));
                    assert(executed@.drop_last() =~= old(executed)@);
                    assert(id_views(executed@) =~= ids.push(node_id@));
                }
                proof {
                    if run_consistent(before, old(executed)@) {
                        if seen {
                            assert(ctx.outputs_view().dom() =~= before.dom());
                        } else {
                            let nids = id_views(executed@);
                            assert forall|i: int, j: int|
                                0 <= i < nids.len() && 0 <= j < nids.len() && i != j implies nids[i]
                                != nids[j] by {
                                if i < ids.len() && j < ids.len() {
                                    assert(nids[i] == ids[i] && nids[j] == ids[j]);
                                } else if i == ids.len() {
                                    assert(nids[j] == ids[j]);
                                } else {
                                    assert(nids[i] == ids[i]);
                                }
                            }
                            assert forall|k: Seq<char>|
                                ctx.outputs_view().contains_key(k) <==> nids.contains(k) by {
                                if k != node_id@ && ids.contains(k) {
                                    let i = choose|i: int| 0 <= i < ids.len() && ids[i] == k;
                                    assert(nids[i] == k);
                                }
                                if nids.contains(k) && k != node_id@ {
                                    let i = choose|i: int| 0 <= i < nids.len() && nids[i] == k;
                                    assert(i < ids.len());
                                    assert(ids[i] == k);
                                }
                                if k == node_id@ {
                                    assert(nids[ids.len() as int] == k);
                                }
                            }
                        }
                    }
                }
                Ok(())
            },
            Err(e) => Err(
                ExecutorError::NodeExecutionFailed {
                    node_id: String::from_str(node_id),
                    message: e.message(),
                },
            ),
        }
    }

    /// The report of a finished run: the outputs kept and the nodes executed.
    pub fn finish<V, D, B2>(ctx: ExecutionContext<V, D, B2>, executed: Vec<String>) -> (r:
        ExecutionResult<V>)
        ensures
            r.prompt_id@ == ctx.prompt_id_view(),
            r.outputs@ == ctx.outputs_view(),
            r.executed@ == executed@,
    {
        let prompt_id = String::from_str(ctx.prompt_id());
        ExecutionResult { prompt_id, outputs: ctx.into_outputs(), executed }
    }
}

} // verus!
