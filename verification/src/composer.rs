//! The step tree composer: from the stored rows of a test case and the
//! shared steps that they refer to, the tree of steps that a reader sees.
use crate::record::{
    clone_records, record_views, row_views, ReferenceRecord, StepRecord, StepRecordView, StepRow,
    StepRowView,
};
use crate::step::{clone_text, text_view};
use vstd::prelude::*;

verus! {

/// A shared step: a named list of steps that test cases can refer to.
#[derive(Debug)]
pub struct SharedStep {
    pub id: u128,
    pub name: String,
    pub description: Option<String>,
    /// The steps of the definition, in their order.
    pub definitions: Vec<StepRecord>,
}

/// Mathematical model of a [`SharedStep`].
pub struct SharedStepView {
    pub id: u128,
    pub name: Seq<char>,
    pub description: Option<Seq<char>>,
    pub definitions: Seq<StepRecordView>,
}

impl View for SharedStep {
    type V = SharedStepView;

    open spec fn view(&self) -> SharedStepView {
        SharedStepView {
            id: self.id,
            name: self.name@,
            description: text_view(self.description),
            definitions: record_views(self.definitions@),
        }
    }
}

/// The views of a list of shared steps.
pub open spec fn shared_views(list: Seq<SharedStep>) -> Seq<SharedStepView> {
    Seq::new(list.len(), |i: int| list[i]@)
}

/// What a reference shows of the shared step that it stands for.
#[derive(Debug)]
pub struct SharedGroup {
    pub name: String,
    pub description: Option<String>,
    /// The steps of the definition, in their order.
    pub steps: Vec<StepRecord>,
}

/// Mathematical model of a [`SharedGroup`].
pub struct SharedGroupView {
    pub name: Seq<char>,
    pub description: Option<Seq<char>>,
    pub steps: Seq<StepRecordView>,
}

impl View for SharedGroup {
    type V = SharedGroupView;

    open spec fn view(&self) -> SharedGroupView {
        SharedGroupView {
            name: self.name@,
            description: text_view(self.description),
            steps: record_views(self.steps@),
        }
    }
}

/// A node of the tree of steps of a test case.
#[derive(Debug)]
pub enum StepNode {
    /// A step with an action of its own.
    Step(StepRecord),
    /// A reference to a shared step, with what it stands for; `group` is
    /// `None` where no shared step with that identifier was handed in.
    Shared { reference: ReferenceRecord, group: Option<SharedGroup> },
}

/// Mathematical model of a [`StepNode`].
pub enum StepNodeView {
    Step(StepRecordView),
    Shared { reference: ReferenceRecord, group: Option<SharedGroupView> },
}

impl View for StepNode {
    type V = StepNodeView;

    open spec fn view(&self) -> StepNodeView {
        match self {
            StepNode::Step(record) => StepNodeView::Step(record@),
            StepNode::Shared { reference, group } => StepNodeView::Shared {
                reference: *reference,
                group: match group {
                    Some(g) => Some(g@),
                    None => None,
                },
            },
        }
    }
}

impl StepNodeView {
    /// The place of the node among the steps of the test case.
    pub open spec fn step_order(self) -> int {
        match self {
            StepNodeView::Step(record) => record.step_order,
            StepNodeView::Shared { reference, group } => reference.step_order as int,
        }
    }
}

/// The views of a list of nodes.
pub open spec fn node_views(list: Seq<StepNode>) -> Seq<StepNodeView> {
    Seq::new(list.len(), |i: int| list[i]@)
}

/// The first shared step from position `from` on that has the identifier
/// `id`.
pub open spec fn find_shared(shared: Seq<SharedStepView>, id: u128, from: int) -> Option<
    SharedStepView,
>
    decreases shared.len() - from,
{
    if from < 0 || from >= shared.len() {
        None
    } else if shared[from].id == id {
        Some(shared[from])
    } else {
        find_shared(shared, id, from + 1)
    }
}

/// What a reference to the shared step `id` shows: the name, the description
/// and the definition of that shared step.
pub open spec fn group_of(shared: Seq<SharedStepView>, id: u128) -> Option<SharedGroupView> {
    match find_shared(shared, id, 0) {
        Some(found) => Some(
            SharedGroupView {
                name: found.name,
                description: found.description,
                steps: found.definitions,
            },
        ),
        None => None,
    }
}

/// The node that a row becomes: a step of its own becomes a leaf, a
/// reference becomes a node with what it stands for, and a step of a
/// definition, which no test case should own, becomes nothing.
pub open spec fn node_of(row: StepRowView, shared: Seq<SharedStepView>) -> Option<StepNodeView> {
    match row {
        StepRowView::Regular(record) => Some(StepNodeView::Step(record)),
        StepRowView::SharedReference(reference) => Some(
            StepNodeView::Shared { reference, group: group_of(shared, reference.shared_step_id) },
        ),
        StepRowView::SharedDefinition(_) => None,
    }
}

/// The nodes of the first `upto` rows, in the order of the rows.
pub open spec fn composed(rows: Seq<StepRowView>, shared: Seq<SharedStepView>, upto: int) -> Seq<
    StepNodeView,
>
    decreases upto,
{
    if upto <= 0 {
        Seq::empty()
    } else {
        match node_of(rows[upto - 1], shared) {
            Some(node) => composed(rows, shared, upto - 1).push(node),
            None => composed(rows, shared, upto - 1),
        }
    }
}

/// The tree of steps of a test case with the rows `rows`.
pub open spec fn step_tree(rows: Seq<StepRowView>, shared: Seq<SharedStepView>) -> Seq<
    StepNodeView,
> {
    composed(rows, shared, rows.len() as int)
}

/// The rows stand in strictly ascending order of their places.
pub open spec fn rows_ascend(rows: Seq<StepRowView>) -> bool {
    forall|i: int, j: int|
        0 <= i < j < rows.len() ==> (#[trigger] rows[i]).step_order() < (#[trigger] rows[j]).step_order()
}

/// The nodes stand in strictly ascending order of their places.
pub open spec fn nodes_ascend(nodes: Seq<StepNodeView>) -> bool {
    forall|i: int, j: int|
        0 <= i < j < nodes.len() ==> (#[trigger] nodes[i]).step_order() < (
        #[trigger] nodes[j]).step_order()
}

/// Every node of the first `upto` rows is the node of one of those rows;
/// and the nodes of rows in ascending order are in ascending order.
pub proof fn lemma_composed(rows: Seq<StepRowView>, shared: Seq<SharedStepView>, upto: int)
    requires
        0 <= upto <= rows.len(),
    ensures
        composed(rows, shared, upto).len() <= upto,
        forall|k: int|
            0 <= k < composed(rows, shared, upto).len() ==> exists|i: int|
                0 <= i < upto && node_of(#[trigger] rows[i], shared) == Some(
                    #[trigger] composed(rows, shared, upto)[k],
                ),
        rows_ascend(rows) ==> nodes_ascend(composed(rows, shared, upto)),
    decreases upto,
{
    if upto > 0 {
        lemma_composed(rows, shared, upto - 1);
        let before = composed(rows, shared, upto - 1);
        let after = composed(rows, shared, upto);
        assert forall|k: int| 0 <= k < after.len() implies exists|i: int|
            0 <= i < upto && node_of(#[trigger] rows[i], shared) == Some(#[trigger] after[k]) by {
            if k < before.len() {
                let i = choose|i: int|
                    0 <= i < upto - 1 && node_of(#[trigger] rows[i], shared) == Some(before[k]);
                assert(node_of(rows[i], shared) == Some(after[k]));
            } else {
                assert(node_of(rows[upto - 1], shared) == Some(after[k]));
            }
        }
        if rows_ascend(rows) {
            assert forall|a: int, b: int| 0 <= a < b < after.len() implies (#[trigger] after[a]).step_order()
                < (#[trigger] after[b]).step_order() by {
                if b == before.len() {
                    let i = choose|i: int|
                        0 <= i < upto - 1 && node_of(#[trigger] rows[i], shared) == Some(before[a]);
                    assert(rows[i].step_order() < rows[upto - 1].step_order());
                } else {
                    assert(before[a].step_order() < before[b].step_order());
                }
            }
        }
    }
}

/// The tree of rows that stand in strictly ascending order of their places
/// has its nodes in strictly ascending order of their places.
pub proof fn lemma_tree_ascends(rows: Seq<StepRowView>, shared: Seq<SharedStepView>)
    requires
        rows_ascend(rows),
    ensures
        nodes_ascend(step_tree(rows, shared)),
{
    lemma_composed(rows, shared, rows.len() as int);
}

/// Where no row is a step of a definition, every row becomes a node: the
/// tree has as many nodes as there are rows, and the node at each position
/// is that of the row at the same position.
pub proof fn lemma_tree_of_case_rows(
    rows: Seq<StepRowView>,
    shared: Seq<SharedStepView>,
    upto: int,
)
    requires
        0 <= upto <= rows.len(),
        forall|i: int| 0 <= i < rows.len() ==> !(#[trigger] rows[i] is SharedDefinition),
    ensures
        composed(rows, shared, upto).len() == upto,
        forall|i: int|
            0 <= i < upto ==> node_of(rows[i], shared) == Some(
                #[trigger] composed(rows, shared, upto)[i],
            ),
    decreases upto,
{
    if upto > 0 {
        lemma_tree_of_case_rows(rows, shared, upto - 1);
        assert(!(rows[upto - 1] is SharedDefinition));
    }
}

/// What a reference to the shared step `id` shows.
fn lookup_group(shared: &Vec<SharedStep>, id: u128) -> (group: Option<SharedGroup>)
    ensures
        group.is_some() == group_of(shared_views(shared@), id).is_some(),
        group.is_some() ==> group.unwrap()@ == group_of(shared_views(shared@), id).unwrap(),
{
    let ghost all = shared_views(shared@);
    let mut i: usize = 0;
    while i < shared.len()
        invariant
            i <= shared.len(),
            all == shared_views(shared@),
            find_shared(all, id, 0) == find_shared(all, id, i as int),
        decreases shared.len() - i,
    {
        assert(all[i as int] == shared@[i as int]@);
        if shared[i].id == id {
            let found = &shared[i];
            return Some(
                SharedGroup {
                    name: found.name.clone(),
                    description: clone_text(&found.description),
                    steps: clone_records(&found.definitions),
                },
            );
        }
        i += 1;
    }
    None
}

/// Composes the tree of steps of a test case from its stored rows, taken in
/// the order in which they are handed in, and from the shared steps that
/// were looked up for it.
pub fn compose_step_tree(rows: &Vec<StepRow>, shared: &Vec<SharedStep>) -> (tree: Vec<StepNode>)
    ensures
        node_views(tree@) == step_tree(row_views(rows@), shared_views(shared@)),
{
    let ghost all = row_views(rows@);
    let ghost known = shared_views(shared@);
    let mut tree: Vec<StepNode> = Vec::new();
    let mut i: usize = 0;
    assert(node_views(tree@) =~= composed(all, known, 0));
    while i < rows.len()
        invariant
            i <= rows.len(),
            all == row_views(rows@),
            known == shared_views(shared@),
            node_views(tree@) == composed(all, known, i as int),
        decreases rows.len() - i,
    {
        assert(all[i as int] == rows@[i as int]@);
        let ghost before = node_views(tree@);
        match &rows[i] {
            StepRow::Regular(record) => {
                tree.push(StepNode::Step(record.clone()));
                assert(node_views(tree@) =~= before.push(node_of(all[i as int], known).unwrap()));
            },
            StepRow::SharedReference(reference) => {
                let group = lookup_group(shared, reference.shared_step_id);
                tree.push(StepNode::Shared { reference: *reference, group });
                assert(node_views(tree@) =~= before.push(node_of(all[i as int], known).unwrap()));
            },
            StepRow::SharedDefinition(_) => {},
        }
        i += 1;
    }
    tree
}

/// Whether a row refers to the shared step `id`.
pub open spec fn refers_to(row: StepRowView, id: u128) -> bool {
    row is SharedReference && row->SharedReference_0.shared_step_id == id
}

/// The shared steps that the first `upto` rows refer to, each once, in the
/// order in which the rows first refer to them.
pub open spec fn first_references(rows: Seq<StepRowView>, upto: int) -> Seq<u128>
    decreases upto,
{
    if upto <= 0 {
        Seq::empty()
    } else {
        let before = first_references(rows, upto - 1);
        let row = rows[upto - 1];
        if row is SharedReference && !before.contains(row->SharedReference_0.shared_step_id) {
            before.push(row->SharedReference_0.shared_step_id)
        } else {
            before
        }
    }
}

/// No shared step is named twice among the first references, and a shared
/// step is among them exactly when one of the rows refers to it.
pub proof fn lemma_first_references(rows: Seq<StepRowView>, upto: int)
    requires
        0 <= upto <= rows.len(),
    ensures
        first_references(rows, upto).no_duplicates(),
        forall|id: u128|
            first_references(rows, upto).contains(id) <==> exists|i: int|
                0 <= i < upto && refers_to(#[trigger] rows[i], id),
    decreases upto,
{
    if upto > 0 {
        lemma_first_references(rows, upto - 1);
        let before = first_references(rows, upto - 1);
        let after = first_references(rows, upto);
        let row = rows[upto - 1];
        assert forall|id: u128| after.contains(id) implies exists|i: int|
            0 <= i < upto && refers_to(#[trigger] rows[i], id) by {
            let at = choose|at: int| 0 <= at < after.len() && after[at] == id;
            if at < before.len() {
                assert(before[at] == id);
                assert(before.contains(id));
                let i = choose|i: int| 0 <= i < upto - 1 && refers_to(#[trigger] rows[i], id);
                assert(refers_to(rows[i], id));
            } else {
                assert(refers_to(rows[upto - 1], id));
            }
        }
        assert forall|id: u128|
            (exists|i: int| 0 <= i < upto && refers_to(#[trigger] rows[i], id)) implies after.contains(
            id,
        ) by {
            let i = choose|i: int| 0 <= i < upto && refers_to(#[trigger] rows[i], id);
            if i < upto - 1 {
                assert(before.contains(id));
                let at = choose|at: int| 0 <= at < before.len() && before[at] == id;
                assert(after[at] == id);
            } else if before.contains(id) {
                let at = choose|at: int| 0 <= at < before.len() && before[at] == id;
                assert(after[at] == id);
            } else {
                assert(after[before.len() as int] == id);
            }
        }
        assert forall|a: int, b: int| 0 <= a < b < after.len() implies after[a] != after[b] by {
            if b == before.len() {
                assert(before[a] == after[a]);
                assert(before.contains(after[a]));
            } else {
                assert(before[a] != before[b]);
            }
        }
    }
}

/// The shared steps that the rows refer to, each once, in the order in which
/// the rows first refer to them: what has to be looked up to compose the
/// tree.
pub fn referenced_shared_steps(rows: &Vec<StepRow>) -> (ids: Vec<u128>)
    ensures
        ids@ == first_references(row_views(rows@), rows@.len() as int),
        ids@.no_duplicates(),
        forall|id: u128|
            ids@.contains(id) <==> exists|i: int|
                0 <= i < rows@.len() && refers_to(#[trigger] row_views(rows@)[i], id),
{
    let ghost all = row_views(rows@);
    let mut ids: Vec<u128> = Vec::new();
    let mut i: usize = 0;
    while i < rows.len()
        invariant
            i <= rows.len(),
            all == row_views(rows@),
            ids@ == first_references(all, i as int),
        decreases rows.len() - i,
    {
        assert(all[i as int] == rows@[i as int]@);
        match &rows[i] {
            StepRow::SharedReference(reference) => {
                let id = reference.shared_step_id;
                let mut seen = false;
                let mut k: usize = 0;
                while k < ids.len()
                    invariant
                        k <= ids.len(),
                        seen == exists|m: int| 0 <= m < k && ids@[m] == id,
                    decreases ids.len() - k,
                {
                    if ids[k] == id {
                        seen = true;
                    }
                    k += 1;
                }
                assert(seen == ids@.contains(id));
                if !seen {
                    ids.push(id);
                }
            },
            _ => {},
        }
        i += 1;
    }
    proof {
        lemma_first_references(all, rows@.len() as int);
    }
    ids
}

} // verus!
