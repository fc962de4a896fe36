//! The shared-step store: shared steps with their definitions, the steps of
//! the test cases that may refer to them, and the writes that keep the two
//! consistent. Every write either happens as a whole or leaves the store as
//! it was.
use crate::composer::{shared_views, SharedStep, SharedStepView};
use crate::ids::{fresh_id, fresh_ids};
use crate::prepare::{
    case_numbered, case_prepared, case_request_views, case_step_error, lemma_no_case_error,
    lemma_numbered_dense, prepare_case_steps, prepare_steps, prepared, CaseStepRequest,
    CaseStepRequestView,
};
use crate::record::{CaseStep, CaseStepView, StepRecordView};
use crate::step::{request_views, text_view, CreateTestStepRequest, StepRequestView};
use crate::text::{
    concat_texts, decimal, decimal_text, eq_ignore_ascii_case,
    lemma_eq_ignore_ascii_case_symmetric, str_eq_ignore_ascii_case,
};
use crate::validator::{ValidationError, ValidationErrorView};
use vstd::prelude::*;

verus! {

/// Why a write to the store is refused.
#[derive(Debug, PartialEq, Eq)]
pub enum StoreError {
    /// No shared step has the identifier.
    NotFound,
    /// Another shared step has the name, up to the case of ASCII letters.
    DuplicateName { name: String },
    /// The shared step cannot be deleted while `count` steps of test cases
    /// refer to it.
    ReferencedByInUse { count: usize },
    /// The step at position `index`, counted from 0, is refused by the
    /// validator.
    InvalidStep { index: usize, error: ValidationError },
    /// The list has more steps than places can be numbered.
    TooManySteps,
    /// The identifier of the new shared step is in use.
    IdConflict,
}

/// Mathematical model of a [`StoreError`].
pub enum StoreErrorView {
    NotFound,
    DuplicateName { name: Seq<char> },
    ReferencedByInUse { count: int },
    InvalidStep { index: int, error: ValidationErrorView },
    TooManySteps,
    IdConflict,
}

impl View for StoreError {
    type V = StoreErrorView;

    open spec fn view(&self) -> StoreErrorView {
        match self {
            StoreError::NotFound => StoreErrorView::NotFound,
            StoreError::DuplicateName { name } => StoreErrorView::DuplicateName { name: name@ },
            StoreError::ReferencedByInUse { count } => StoreErrorView::ReferencedByInUse {
                count: *count as int,
            },
            StoreError::InvalidStep { index, error } => StoreErrorView::InvalidStep {
                index: *index as int,
                error: error@,
            },
            StoreError::TooManySteps => StoreErrorView::TooManySteps,
            StoreError::IdConflict => StoreErrorView::IdConflict,
        }
    }
}

/// Whether a shared step other than `except` has the name `name`, up to the
/// case of ASCII letters.
pub open spec fn name_in_use(shared: Seq<SharedStepView>, name: Seq<char>, except: Option<u128>) -> bool {
    exists|i: int|
        0 <= i < shared.len() && eq_ignore_ascii_case((#[trigger] shared[i]).name, name) && Some(
            shared[i].id,
        ) != except
}

/// Whether a shared step has the identifier `id`.
pub open spec fn id_in_use(shared: Seq<SharedStepView>, id: u128) -> bool {
    exists|i: int| 0 <= i < shared.len() && (#[trigger] shared[i]).id == id
}

/// Executable form of [`name_in_use`].
pub fn is_name_in_use(shared: &Vec<SharedStep>, name: &str, except: Option<u128>) -> (used: bool)
    ensures
        used == name_in_use(shared_views(shared@), name@, except),
{
    let ghost all = shared_views(shared@);
    let mut i: usize = 0;
    while i < shared.len()
        invariant
            i <= shared.len(),
            all == shared_views(shared@),
            forall|k: int|
                0 <= k < i ==> !(eq_ignore_ascii_case((#[trigger] all[k]).name, name@) && Some(
                    all[k].id,
                ) != except),
        decreases shared.len() - i,
    {
        assert(all[i as int] == shared@[i as int]@);
        let other = match except {
            Some(id) => shared[i].id != id,
            None => true,
        };
        if other && str_eq_ignore_ascii_case(shared[i].name.as_str(), name) {
            return true;
        }
        i += 1;
    }
    false
}

/// The position of the shared step with the identifier `id`, if there is
/// one.
pub fn position_of(shared: &Vec<SharedStep>, id: u128) -> (at: Option<usize>)
    ensures
        at.is_some() == id_in_use(shared_views(shared@), id),
        at.is_some() ==> at.unwrap() < shared@.len() && shared@[at.unwrap() as int].id == id,
        at.is_some() ==> forall|k: int| 0 <= k < at.unwrap() ==> (#[trigger] shared@[k]).id != id,
{
    let ghost all = shared_views(shared@);
    let mut i: usize = 0;
    while i < shared.len()
        invariant
            i <= shared.len(),
            all == shared_views(shared@),
            forall|k: int| 0 <= k < i ==> (#[trigger] all[k]).id != id,
            forall|k: int| 0 <= k < i ==> (#[trigger] shared@[k]).id != id,
        decreases shared.len() - i,
    {
        assert(all[i as int] == shared@[i as int]@);
        if shared[i].id == id {
            return Some(i);
        }
        i += 1;
    }
    None
}

/// Judges whether a shared step to which `count` steps of test cases refer
/// can be deleted: only one to which none refers can.
pub fn check_deletable(count: usize) -> (outcome: Result<(), StoreError>)
    ensures
        count == 0 ==> outcome.is_ok(),
        count > 0 ==> outcome.is_err() && outcome->Err_0@ == (StoreErrorView::ReferencedByInUse {
            count: count as int,
        }),
{
    if count > 0 {
        Err(StoreError::ReferencedByInUse { count })
    } else {
        Ok(())
    }
}

/// What a client submits to create a shared step.
#[derive(Debug)]
pub struct CreateSharedStepRequest {
    pub name: String,
    pub description: Option<String>,
    pub steps: Vec<CreateTestStepRequest>,
}

/// Mathematical model of a [`CreateSharedStepRequest`].
pub struct CreateSharedStepView {
    pub name: Seq<char>,
    pub description: Option<Seq<char>>,
    pub steps: Seq<StepRequestView>,
}

impl View for CreateSharedStepRequest {
    type V = CreateSharedStepView;

    open spec fn view(&self) -> CreateSharedStepView {
        CreateSharedStepView {
            name: self.name@,
            description: text_view(self.description),
            steps: request_views(self.steps@),
        }
    }
}

/// What a client submits to update a shared step: each part that is absent
/// stays as it is.
#[derive(Debug)]
pub struct UpdateSharedStepRequest {
    pub name: Option<String>,
    pub description: Option<String>,
    pub steps: Option<Vec<CreateTestStepRequest>>,
}

/// Mathematical model of an [`UpdateSharedStepRequest`].
pub struct UpdateSharedStepView {
    pub name: Option<Seq<char>>,
    pub description: Option<Seq<char>>,
    pub steps: Option<Seq<StepRequestView>>,
}

impl View for UpdateSharedStepRequest {
    type V = UpdateSharedStepView;

    open spec fn view(&self) -> UpdateSharedStepView {
        UpdateSharedStepView {
            name: text_view(self.name),
            description: text_view(self.description),
            steps: match self.steps {
                Some(steps) => Some(request_views(steps@)),
                None => None,
            },
        }
    }
}

/// A step of a test case as it is stored: the test case that owns it, and
/// the step.
#[derive(Debug)]
pub struct CaseRow {
    pub case_id: u128,
    pub step: CaseStep,
}

/// Mathematical model of a [`CaseRow`].
pub struct CaseRowView {
    pub case_id: u128,
    pub step: CaseStepView,
}

impl View for CaseRow {
    type V = CaseRowView;

    open spec fn view(&self) -> CaseRowView {
        CaseRowView { case_id: self.case_id, step: self.step@ }
    }
}

/// The views of a list of stored steps of test cases.
pub open spec fn case_row_views(list: Seq<CaseRow>) -> Seq<CaseRowView> {
    Seq::new(list.len(), |i: int| list[i]@)
}

/// Whether a stored step of a test case refers to the shared step `id`.
pub open spec fn row_refers_to(row: CaseRowView, id: u128) -> bool {
    row.step is SharedReference && row.step->SharedReference_0.shared_step_id == id
}

/// The number of steps among the first `upto` that refer to the shared step
/// `id`.
pub open spec fn reference_count(rows: Seq<CaseRowView>, id: u128, upto: int) -> int
    decreases upto,
{
    if upto <= 0 {
        0
    } else {
        reference_count(rows, id, upto - 1) + if row_refers_to(rows[upto - 1], id) {
            1int
        } else {
            0int
        }
    }
}

/// The steps of the test case `case_id` among the first `upto` stored
/// steps, in stored order.
pub open spec fn steps_of(rows: Seq<CaseRowView>, case_id: u128, upto: int) -> Seq<CaseStepView>
    decreases upto,
{
    if upto <= 0 {
        Seq::empty()
    } else if rows[upto - 1].case_id == case_id {
        steps_of(rows, case_id, upto - 1).push(rows[upto - 1].step)
    } else {
        steps_of(rows, case_id, upto - 1)
    }
}

/// The steps of a list stand at the places 1, 2, 3 and so on.
pub open spec fn steps_dense(steps: Seq<CaseStepView>) -> bool {
    forall|i: int| 0 <= i < steps.len() ==> (#[trigger] steps[i]).step_order() == i + 1
}

/// The steps of a definition stand at the places 1, 2, 3 and so on.
pub open spec fn definitions_dense(definitions: Seq<StepRecordView>) -> bool {
    forall|i: int| 0 <= i < definitions.len() ==> (#[trigger] definitions[i]).step_order == i + 1
}

/// Mathematical model of a [`StepStore`]: the shared steps, and the steps of
/// all test cases in stored order.
pub struct StoreView {
    pub shared: Seq<SharedStepView>,
    pub rows: Seq<CaseRowView>,
}

impl StoreView {
    /// What holds of every store: no two shared steps have the same
    /// identifier, or the same name up to the case of ASCII letters; the
    /// steps of every definition and of every test case stand at the places
    /// 1, 2, 3 and so on; and every reference of a test case is to a shared
    /// step of the store.
    pub open spec fn wf(self) -> bool {
        &&& forall|i: int, j: int|
            0 <= i < j < self.shared.len() ==> (#[trigger] self.shared[i]).id != (
            #[trigger] self.shared[j]).id
        &&& forall|i: int, j: int|
            0 <= i < j < self.shared.len() ==> !eq_ignore_ascii_case(
                (#[trigger] self.shared[i]).name,
                (#[trigger] self.shared[j]).name,
            )
        &&& forall|i: int|
            0 <= i < self.shared.len() ==> definitions_dense((#[trigger] self.shared[i]).definitions)
        &&& forall|case_id: u128| #[trigger]
            steps_dense(steps_of(self.rows, case_id, self.rows.len() as int))
        &&& forall|i: int|
            0 <= i < self.rows.len() && (#[trigger] self.rows[i]).step is SharedReference
                ==> id_in_use(self.shared, self.rows[i].step->SharedReference_0.shared_step_id)
    }

    /// The number of steps of test cases that refer to the shared step `id`.
    pub open spec fn references(self, id: u128) -> int {
        reference_count(self.rows, id, self.rows.len() as int)
    }

    /// The steps of the test case `case_id`, in their order.
    pub open spec fn case_steps(self, case_id: u128) -> Seq<CaseStepView> {
        steps_of(self.rows, case_id, self.rows.len() as int)
    }

    /// The position of the shared step with the identifier `id`.
    pub open spec fn position(self, id: u128) -> int {
        choose|i: int| 0 <= i < self.shared.len() && (#[trigger] self.shared[i]).id == id
    }
}

/// A count of references is never negative and never more than the steps
/// looked at; it is 0 exactly where none of them refers to the shared step.
pub proof fn lemma_reference_count(rows: Seq<CaseRowView>, id: u128, upto: int)
    requires
        0 <= upto <= rows.len(),
    ensures
        0 <= reference_count(rows, id, upto) <= upto,
        reference_count(rows, id, upto) == 0 <==> forall|i: int|
            0 <= i < upto ==> !row_refers_to(#[trigger] rows[i], id),
    decreases upto,
{
    if upto > 0 {
        lemma_reference_count(rows, id, upto - 1);
        if reference_count(rows, id, upto) == 0 {
            assert forall|i: int| 0 <= i < upto implies !row_refers_to(#[trigger] rows[i], id) by {
                if i < upto - 1 {
                }
            }
        }
    }
}

/// The shared steps and the steps of test cases.
#[derive(Debug)]
pub struct StepStore {
    shared_steps: Vec<SharedStep>,
    case_rows: Vec<CaseRow>,
}

impl View for StepStore {
    type V = StoreView;

    closed spec fn view(&self) -> StoreView {
        StoreView { shared: shared_views(self.shared_steps@), rows: case_row_views(self.case_rows@) }
    }
}

/// What the store looks like after a shared step is created, or why it is
/// not created: because its name is in use, because its identifier is,
/// or because its steps are refused.
pub open spec fn after_create(
    store: StoreView,
    request: CreateSharedStepView,
    id: u128,
    step_ids: Seq<u128>,
) -> Result<StoreView, StoreErrorView> {
    if name_in_use(store.shared, request.name, None) {
        Err(StoreErrorView::DuplicateName { name: request.name })
    } else if id_in_use(store.shared, id) {
        Err(StoreErrorView::IdConflict)
    } else {
        match prepared(request.steps, step_ids) {
            Err(error) => Err(error),
            Ok(definitions) => Ok(
                StoreView {
                    shared: store.shared.push(
                        SharedStepView {
                            id,
                            name: request.name,
                            description: request.description,
                            definitions,
                        },
                    ),
                    rows: store.rows,
                },
            ),
        }
    }
}

/// The model of what a write returns and leaves behind: the store after it,
/// or the error.
pub open spec fn write_view(outcome: Result<(), StoreError>, store: StoreView) -> Result<
    StoreView,
    StoreErrorView,
> {
    match outcome {
        Ok(_) => Ok(store),
        Err(error) => Err(error@),
    }
}

/// A shared step that is created in a store of which [`StoreView::wf`]
/// holds leaves a store of which it holds.
pub proof fn lemma_create_keeps_wf(
    store: StoreView,
    request: CreateSharedStepView,
    id: u128,
    step_ids: Seq<u128>,
)
    requires
        store.wf(),
        after_create(store, request, id, step_ids).is_ok(),
    ensures
        after_create(store, request, id, step_ids)->Ok_0.wf(),
{
    let after = after_create(store, request, id, step_ids)->Ok_0;
    let last = store.shared.len() as int;
    lemma_numbered_dense(request.steps, step_ids);
    assert forall|i: int, j: int| 0 <= i < j < after.shared.len() implies (#[trigger] after.shared[i]).id
        != (#[trigger] after.shared[j]).id by {
        if j == last {
            assert(store.shared[i].id != id);
        } else {
            assert(store.shared[i].id != store.shared[j].id);
        }
    }
    assert forall|i: int, j: int| 0 <= i < j < after.shared.len() implies !eq_ignore_ascii_case(
        (#[trigger] after.shared[i]).name,
        (#[trigger] after.shared[j]).name,
    ) by {
        if j == last {
            assert(!(eq_ignore_ascii_case(store.shared[i].name, request.name) && Some(
                store.shared[i].id,
            ) != None::<u128>));
        } else {
            assert(!eq_ignore_ascii_case(store.shared[i].name, store.shared[j].name));
        }
    }
    assert forall|i: int| 0 <= i < after.shared.len() implies definitions_dense(
        (#[trigger] after.shared[i]).definitions,
    ) by {
        if i < last {
            assert(definitions_dense(store.shared[i].definitions));
        }
    }
    assert forall|i: int|
        0 <= i < after.rows.len() && (#[trigger] after.rows[i]).step is SharedReference implies id_in_use(
        after.shared,
        after.rows[i].step->SharedReference_0.shared_step_id,
    ) by {
        let wanted = store.rows[i].step->SharedReference_0.shared_step_id;
        assert(id_in_use(store.shared, wanted));
        let k = choose|k: int| 0 <= k < store.shared.len() && (#[trigger] store.shared[k]).id == wanted;
        assert(after.shared[k].id == wanted);
    }
}

/// With distinct identifiers, the shared step with the identifier `id` is
/// found at its one position.
pub proof fn lemma_position(store: StoreView, id: u128, at: int)
    requires
        store.wf(),
        0 <= at < store.shared.len(),
        store.shared[at].id == id,
    ensures
        store.position(id) == at,
        id_in_use(store.shared, id),
{
    let found = store.position(id);
    assert(0 <= found < store.shared.len() && store.shared[found].id == id);
    if found < at {
        assert(store.shared[found].id != store.shared[at].id);
    } else if at < found {
        assert(store.shared[at].id != store.shared[found].id);
    }
}

/// The shared step as it is after an update: each part that the request
/// carries replaces the part that was there.
pub open spec fn updated_shared(
    before: SharedStepView,
    request: UpdateSharedStepView,
    definitions: Seq<StepRecordView>,
) -> SharedStepView {
    SharedStepView {
        id: before.id,
        name: match request.name {
            Some(name) => name,
            None => before.name,
        },
        description: match request.description {
            Some(description) => Some(description),
            None => before.description,
        },
        definitions,
    }
}

/// What the store looks like after the shared step `id` is updated, or why
/// it is not updated: because there is none, because another shared step
/// has the new name, or because the new steps are refused. New steps
/// replace the whole definition.
pub open spec fn after_update(
    store: StoreView,
    id: u128,
    request: UpdateSharedStepView,
    step_ids: Seq<u128>,
) -> Result<StoreView, StoreErrorView> {
    if !id_in_use(store.shared, id) {
        Err(StoreErrorView::NotFound)
    } else if request.name.is_some() && name_in_use(store.shared, request.name.unwrap(), Some(id)) {
        Err(StoreErrorView::DuplicateName { name: request.name.unwrap() })
    } else {
        let at = store.position(id);
        let definitions = match request.steps {
            Some(steps) => prepared(steps, step_ids),
            None => Ok(store.shared[at].definitions),
        };
        match definitions {
            Err(error) => Err(error),
            Ok(list) => Ok(
                StoreView {
                    shared: store.shared.update(
                        at,
                        updated_shared(store.shared[at], request, list),
                    ),
                    rows: store.rows,
                },
            ),
        }
    }
}

/// An update of a store of which [`StoreView::wf`] holds leaves a store of
/// which it holds.
pub proof fn lemma_update_keeps_wf(
    store: StoreView,
    id: u128,
    request: UpdateSharedStepView,
    step_ids: Seq<u128>,
)
    requires
        store.wf(),
        after_update(store, id, request, step_ids).is_ok(),
    ensures
        after_update(store, id, request, step_ids)->Ok_0.wf(),
{
    let after = after_update(store, id, request, step_ids)->Ok_0;
    let at = store.position(id);
    assert(0 <= at < store.shared.len() && store.shared[at].id == id);
    if request.steps.is_some() {
        lemma_numbered_dense(request.steps.unwrap(), step_ids);
    }
    assert forall|i: int, j: int| 0 <= i < j < after.shared.len() implies (#[trigger] after.shared[i]).id
        != (#[trigger] after.shared[j]).id by {
        assert(store.shared[i].id != store.shared[j].id);
    }
    assert forall|i: int, j: int| 0 <= i < j < after.shared.len() implies !eq_ignore_ascii_case(
        (#[trigger] after.shared[i]).name,
        (#[trigger] after.shared[j]).name,
    ) by {
        assert(!eq_ignore_ascii_case(store.shared[i].name, store.shared[j].name));
        assert(store.shared[i].id != store.shared[j].id);
        if request.name.is_some() {
            let name = request.name.unwrap();
            if i == at {
                assert(!(eq_ignore_ascii_case(store.shared[j].name, name) && Some(
                    store.shared[j].id,
                ) != Some(id)));
                lemma_eq_ignore_ascii_case_symmetric(name, store.shared[j].name);
            } else if j == at {
                assert(!(eq_ignore_ascii_case(store.shared[i].name, name) && Some(
                    store.shared[i].id,
                ) != Some(id)));
            }
        }
    }
    assert forall|i: int| 0 <= i < after.shared.len() implies definitions_dense(
        (#[trigger] after.shared[i]).definitions,
    ) by {
        assert(definitions_dense(store.shared[i].definitions));
    }
    assert forall|i: int|
        0 <= i < after.rows.len() && (#[trigger] after.rows[i]).step is SharedReference implies id_in_use(
        after.shared,
        after.rows[i].step->SharedReference_0.shared_step_id,
    ) by {
        let wanted = store.rows[i].step->SharedReference_0.shared_step_id;
        assert(id_in_use(store.shared, wanted));
        let k = choose|k: int| 0 <= k < store.shared.len() && (#[trigger] store.shared[k]).id == wanted;
        assert(after.shared[k].id == wanted);
    }
}

/// What the store looks like after the shared step `id` is deleted, or why
/// it is not deleted: because steps of test cases refer to it, or because
/// there is none.
pub open spec fn after_delete(store: StoreView, id: u128) -> Result<StoreView, StoreErrorView> {
    if store.references(id) > 0 {
        Err(StoreErrorView::ReferencedByInUse { count: store.references(id) })
    } else if !id_in_use(store.shared, id) {
        Err(StoreErrorView::NotFound)
    } else {
        Ok(StoreView { shared: store.shared.remove(store.position(id)), rows: store.rows })
    }
}

/// A deletion from a store of which [`StoreView::wf`] holds leaves a store
/// of which it holds: no reference is left without its shared step.
pub proof fn lemma_delete_keeps_wf(store: StoreView, id: u128)
    requires
        store.wf(),
        after_delete(store, id).is_ok(),
    ensures
        after_delete(store, id)->Ok_0.wf(),
        !id_in_use(after_delete(store, id)->Ok_0.shared, id),
{
    let after = after_delete(store, id)->Ok_0;
    let at = store.position(id);
    assert(0 <= at < store.shared.len() && store.shared[at].id == id);
    let back = |i: int|
        if i < at {
            i
        } else {
            i + 1
        };
    assert forall|i: int| 0 <= i < after.shared.len() implies #[trigger] after.shared[i]
        == store.shared[back(i)] by {
    }
    assert forall|i: int, j: int| 0 <= i < j < after.shared.len() implies (#[trigger] after.shared[i]).id
        != (#[trigger] after.shared[j]).id by {
        assert(store.shared[back(i)].id != store.shared[back(j)].id);
    }
    assert forall|i: int, j: int| 0 <= i < j < after.shared.len() implies !eq_ignore_ascii_case(
        (#[trigger] after.shared[i]).name,
        (#[trigger] after.shared[j]).name,
    ) by {
        assert(!eq_ignore_ascii_case(store.shared[back(i)].name, store.shared[back(j)].name));
    }
    assert forall|i: int| 0 <= i < after.shared.len() implies definitions_dense(
        (#[trigger] after.shared[i]).definitions,
    ) by {
        assert(definitions_dense(store.shared[back(i)].definitions));
    }
    lemma_reference_count(store.rows, id, store.rows.len() as int);
    assert forall|i: int|
        0 <= i < after.rows.len() && (#[trigger] after.rows[i]).step is SharedReference implies id_in_use(
        after.shared,
        after.rows[i].step->SharedReference_0.shared_step_id,
    ) by {
        let wanted = store.rows[i].step->SharedReference_0.shared_step_id;
        assert(!row_refers_to(store.rows[i], id));
        assert(id_in_use(store.shared, wanted));
        let k = choose|k: int| 0 <= k < store.shared.len() && (#[trigger] store.shared[k]).id == wanted;
        if k < at {
            assert(after.shared[k].id == wanted);
        } else {
            assert(after.shared[k - 1] == store.shared[back(k - 1)]);
            assert(after.shared[k - 1].id == wanted);
        }
    }
    if id_in_use(after.shared, id) {
        let k = choose|k: int| 0 <= k < after.shared.len() && (#[trigger] after.shared[k]).id == id;
        assert(after.shared[k] == store.shared[back(k)]);
        if back(k) < at {
            assert(store.shared[back(k)].id != store.shared[at].id);
        } else {
            assert(store.shared[at].id != store.shared[back(k)].id);
        }
    }
}

/// The stored steps among the first `upto` that do not belong to the test
/// case `case_id`, in stored order.
pub open spec fn without_case(rows: Seq<CaseRowView>, case_id: u128, upto: int) -> Seq<CaseRowView>
    decreases upto,
{
    if upto <= 0 {
        Seq::empty()
    } else if rows[upto - 1].case_id != case_id {
        without_case(rows, case_id, upto - 1).push(rows[upto - 1])
    } else {
        without_case(rows, case_id, upto - 1)
    }
}

/// The steps `steps` as stored steps of the test case `case_id`.
pub open spec fn rows_for(case_id: u128, steps: Seq<CaseStepView>) -> Seq<CaseRowView> {
    Seq::new(steps.len(), |i: int| CaseRowView { case_id, step: steps[i] })
}

/// What the store looks like after the steps of the test case `case_id` are
/// replaced, or why they are not: the steps of the other test cases stay,
/// and the new steps follow them.
pub open spec fn after_replace(
    store: StoreView,
    case_id: u128,
    requests: Seq<CaseStepRequestView>,
    ids: Seq<u128>,
) -> Result<StoreView, StoreErrorView> {
    match case_prepared(requests, ids, store.shared) {
        Err(error) => Err(error),
        Ok(steps) => Ok(
            StoreView {
                shared: store.shared,
                rows: without_case(store.rows, case_id, store.rows.len() as int) + rows_for(
                    case_id,
                    steps,
                ),
            },
        ),
    }
}

/// The steps of a test case among the first `upto` stored steps depend on
/// those stored steps alone.
pub proof fn lemma_steps_of_prefix(
    first: Seq<CaseRowView>,
    second: Seq<CaseRowView>,
    case_id: u128,
    upto: int,
)
    requires
        0 <= upto <= first.len(),
        upto <= second.len(),
        forall|i: int| 0 <= i < upto ==> first[i] == second[i],
    ensures
        steps_of(first, case_id, upto) == steps_of(second, case_id, upto),
    decreases upto,
{
    if upto > 0 {
        lemma_steps_of_prefix(first, second, case_id, upto - 1);
    }
}

/// Every stored step that is kept when a test case is taken out was stored
/// before.
pub proof fn lemma_without_case(rows: Seq<CaseRowView>, case_id: u128, upto: int)
    requires
        0 <= upto <= rows.len(),
    ensures
        without_case(rows, case_id, upto).len() <= upto,
        forall|k: int|
            0 <= k < without_case(rows, case_id, upto).len() ==> exists|i: int|
                0 <= i < upto && rows[i] == #[trigger] without_case(rows, case_id, upto)[k],
    decreases upto,
{
    if upto > 0 {
        lemma_without_case(rows, case_id, upto - 1);
        let before = without_case(rows, case_id, upto - 1);
        let after = without_case(rows, case_id, upto);
        assert forall|k: int| 0 <= k < after.len() implies exists|i: int|
            0 <= i < upto && rows[i] == #[trigger] after[k] by {
            if k < before.len() {
                let i = choose|i: int| 0 <= i < upto - 1 && rows[i] == before[k];
                assert(rows[i] == after[k]);
            } else {
                assert(rows[upto - 1] == after[k]);
            }
        }
    }
}

/// When a test case is taken out, none of its steps is left, and every
/// other test case has the steps that it had.
pub proof fn lemma_without_case_steps(
    rows: Seq<CaseRowView>,
    case_id: u128,
    other: u128,
    upto: int,
)
    requires
        0 <= upto <= rows.len(),
    ensures
        steps_of(
            without_case(rows, case_id, upto),
            other,
            without_case(rows, case_id, upto).len() as int,
        ) == if other == case_id {
            Seq::<CaseStepView>::empty()
        } else {
            steps_of(rows, other, upto)
        },
    decreases upto,
{
    if upto > 0 {
        lemma_without_case_steps(rows, case_id, other, upto - 1);
        let before = without_case(rows, case_id, upto - 1);
        let after = without_case(rows, case_id, upto);
        if rows[upto - 1].case_id != case_id {
            assert(after == before.push(rows[upto - 1]));
            assert(after[after.len() - 1] == rows[upto - 1]);
            lemma_steps_of_prefix(after, before, other, before.len() as int);
        }
    }
}

/// Of stored steps that follow one another, the steps of a test case are
/// those among the first followed by those among the second.
pub proof fn lemma_steps_of_concat(
    first: Seq<CaseRowView>,
    second: Seq<CaseRowView>,
    case_id: u128,
    upto: int,
)
    requires
        0 <= upto <= second.len(),
    ensures
        steps_of(first + second, case_id, first.len() + upto) == steps_of(
            first,
            case_id,
            first.len() as int,
        ) + steps_of(second, case_id, upto),
    decreases upto,
{
    let all = first + second;
    if upto == 0 {
        lemma_steps_of_prefix(all, first, case_id, first.len() as int);
        assert(steps_of(first, case_id, first.len() as int) + Seq::<CaseStepView>::empty()
            =~= steps_of(first, case_id, first.len() as int));
    } else {
        lemma_steps_of_concat(first, second, case_id, upto - 1);
        assert(all[first.len() + upto - 1] == second[upto - 1]);
        let head = steps_of(first, case_id, first.len() as int);
        let tail = steps_of(second, case_id, upto - 1);
        if second[upto - 1].case_id == case_id {
            assert((head + tail).push(second[upto - 1].step) =~= head + tail.push(
                second[upto - 1].step,
            ));
        }
    }
}

/// The stored steps of one test case are the steps of that test case, and
/// of no other.
pub proof fn lemma_steps_of_rows_for(
    case_id: u128,
    steps: Seq<CaseStepView>,
    other: u128,
    upto: int,
)
    requires
        0 <= upto <= steps.len(),
    ensures
        steps_of(rows_for(case_id, steps), other, upto) == if other == case_id {
            steps.take(upto)
        } else {
            Seq::<CaseStepView>::empty()
        },
    decreases upto,
{
    if upto > 0 {
        lemma_steps_of_rows_for(case_id, steps, other, upto - 1);
        if other == case_id {
            assert(steps.take(upto - 1).push(steps[upto - 1]) =~= steps.take(upto));
        }
    } else {
        assert(steps.take(0) =~= Seq::<CaseStepView>::empty());
    }
}

/// After the steps of a test case are replaced, that test case has the new
/// steps, at the places 1, 2, 3 and so on, and every other test case has
/// the steps that it had.
pub proof fn lemma_replace_steps(
    store: StoreView,
    case_id: u128,
    requests: Seq<CaseStepRequestView>,
    ids: Seq<u128>,
)
    requires
        after_replace(store, case_id, requests, ids).is_ok(),
    ensures
        after_replace(store, case_id, requests, ids)->Ok_0.case_steps(case_id) == case_numbered(
            requests,
            ids,
        ),
        steps_dense(case_numbered(requests, ids)),
        forall|other: u128|
            other != case_id ==> #[trigger] after_replace(
                store,
                case_id,
                requests,
                ids,
            )->Ok_0.case_steps(other) == store.case_steps(other),
{
    let after = after_replace(store, case_id, requests, ids)->Ok_0;
    let kept = without_case(store.rows, case_id, store.rows.len() as int);
    let steps = case_numbered(requests, ids);
    let added = rows_for(case_id, steps);
    assert forall|other: u128| #[trigger]
        after.case_steps(other) == if other == case_id {
            steps
        } else {
            store.case_steps(other)
        } by {
        lemma_without_case_steps(store.rows, case_id, other, store.rows.len() as int);
        lemma_steps_of_concat(kept, added, other, added.len() as int);
        lemma_steps_of_rows_for(case_id, steps, other, steps.len() as int);
        assert(steps.take(steps.len() as int) =~= steps);
        assert(steps_of(store.rows, other, store.rows.len() as int) == store.case_steps(other));
        if other == case_id {
            assert(Seq::<CaseStepView>::empty() + steps =~= steps);
        } else {
            assert(store.case_steps(other) + Seq::<CaseStepView>::empty() =~= store.case_steps(
                other,
            ));
        }
    }
    assert forall|i: int| 0 <= i < steps.len() implies (#[trigger] steps[i]).step_order() == i + 1 by {
        assert(requests.len() <= i32::MAX);
    }
}

/// A replacement of the steps of a test case in a store of which
/// [`StoreView::wf`] holds leaves a store of which it holds.
pub proof fn lemma_replace_keeps_wf(
    store: StoreView,
    case_id: u128,
    requests: Seq<CaseStepRequestView>,
    ids: Seq<u128>,
)
    requires
        store.wf(),
        after_replace(store, case_id, requests, ids).is_ok(),
    ensures
        after_replace(store, case_id, requests, ids)->Ok_0.wf(),
{
    let after = after_replace(store, case_id, requests, ids)->Ok_0;
    let kept = without_case(store.rows, case_id, store.rows.len() as int);
    let steps = case_numbered(requests, ids);
    lemma_replace_steps(store, case_id, requests, ids);
    lemma_without_case(store.rows, case_id, store.rows.len() as int);
    lemma_no_case_error(requests, store.shared, 0);
    assert forall|other: u128| #[trigger]
        steps_dense(steps_of(after.rows, other, after.rows.len() as int)) by {
        assert(steps_of(after.rows, other, after.rows.len() as int) == after.case_steps(other));
        if other != case_id {
            assert(steps_dense(steps_of(store.rows, other, store.rows.len() as int)));
        }
    }
    assert forall|i: int|
        0 <= i < after.rows.len() && (#[trigger] after.rows[i]).step is SharedReference implies id_in_use(
        after.shared,
        after.rows[i].step->SharedReference_0.shared_step_id,
    ) by {
        if i < kept.len() {
            let k = choose|k: int| 0 <= k < store.rows.len() && store.rows[k] == kept[i];
            assert(store.rows[k].step is SharedReference);
        } else {
            let at = i - kept.len();
            assert(after.rows[i].step == steps[at]);
            assert(case_step_error(requests[at], store.shared, at).is_none());
        }
    }
}

impl StepStore {
    /// What holds of every store.
    pub open spec fn wf(&self) -> bool {
        self@.wf()
    }

    /// A store without shared steps and without test cases.
    pub fn new() -> (store: StepStore)
        ensures
            store.wf(),
            store@.shared.len() == 0,
            store@.rows.len() == 0,
    {
        let store = StepStore { shared_steps: Vec::new(), case_rows: Vec::new() };
        assert forall|case_id: u128| #[trigger]
            steps_dense(steps_of(store@.rows, case_id, store@.rows.len() as int)) by {
        }
        store
    }

    /// The shared steps of the store.
    pub fn shared_steps(&self) -> (shared: &Vec<SharedStep>)
        ensures
            shared_views(shared@) == self@.shared,
    {
        &self.shared_steps
    }

    /// The steps of all test cases, in stored order.
    pub fn case_rows(&self) -> (rows: &Vec<CaseRow>)
        ensures
            case_row_views(rows@) == self@.rows,
    {
        &self.case_rows
    }

    /// The number of steps of test cases that refer to the shared step `id`.
    pub fn reference_count(&self, id: u128) -> (count: usize)
        ensures
            count == self@.references(id),
    {
        let ghost rows = case_row_views(self.case_rows@);
        let mut count: usize = 0;
        let mut i: usize = 0;
        while i < self.case_rows.len()
            invariant
                i <= self.case_rows.len(),
                rows == case_row_views(self.case_rows@),
                count == reference_count(rows, id, i as int),
                count <= i,
            decreases self.case_rows.len() - i,
        {
            assert(rows[i as int] == self.case_rows@[i as int]@);
            match &self.case_rows[i].step {
                CaseStep::SharedReference(reference) => {
                    if reference.shared_step_id == id {
                        count += 1;
                    }
                },
                CaseStep::Regular(_) => {},
            }
            i += 1;
        }
        count
    }

    /// Creates the shared step that `request` describes, with the
    /// identifier `id` and with `step_ids` as the identifiers of the steps
    /// of its definition. The steps are validated and numbered from 1.
    pub fn create_shared_step_with_ids(
        &mut self,
        request: &CreateSharedStepRequest,
        id: u128,
        step_ids: &Vec<u128>,
    ) -> (outcome: Result<(), StoreError>)
        requires
            old(self).wf(),
            step_ids@.len() == request.steps@.len(),
        ensures
            final(self).wf(),
            write_view(outcome, final(self)@) == after_create(old(self)@, request@, id, step_ids@),
            outcome.is_err() ==> final(self)@ == old(self)@,
    {
        if is_name_in_use(&self.shared_steps, request.name.as_str(), None) {
            return Err(StoreError::DuplicateName { name: request.name.clone() });
        }
        if position_of(&self.shared_steps, id).is_some() {
            return Err(StoreError::IdConflict);
        }
        let definitions = match prepare_steps(&request.steps, step_ids) {
            Ok(records) => records,
            Err(error) => {
                return Err(error);
            },
        };
        let created = SharedStep {
            id,
            name: request.name.clone(),
            description: crate::step::clone_text(&request.description),
            definitions,
        };
        proof {
            lemma_create_keeps_wf(old(self)@, request@, id, step_ids@);
        }
        self.shared_steps.push(created);
        assert(self@.shared =~= old(self)@.shared.push(created@));
        Ok(())
    }

    /// Updates the shared step `id` as `request` describes: a name and a
    /// description that are absent stay as they are, and steps that are
    /// present replace the whole definition, with `step_ids` as their
    /// identifiers.
    pub fn update_shared_step_with_ids(
        &mut self,
        id: u128,
        request: &UpdateSharedStepRequest,
        step_ids: &Vec<u128>,
    ) -> (outcome: Result<(), StoreError>)
        requires
            old(self).wf(),
            request.steps.is_some() ==> step_ids@.len() == request.steps.unwrap()@.len(),
        ensures
            final(self).wf(),
            write_view(outcome, final(self)@) == after_update(old(self)@, id, request@, step_ids@),
            outcome.is_err() ==> final(self)@ == old(self)@,
    {
        let at = match position_of(&self.shared_steps, id) {
            Some(at) => at,
            None => {
                return Err(StoreError::NotFound);
            },
        };
        proof {
            assert(self@.shared[at as int] == self.shared_steps@[at as int]@);
            lemma_position(self@, id, at as int);
        }
        match &request.name {
            Some(name) => {
                if is_name_in_use(&self.shared_steps, name.as_str(), Some(id)) {
                    return Err(StoreError::DuplicateName { name: name.clone() });
                }
            },
            None => {},
        }
        let before = &self.shared_steps[at];
        let definitions = match &request.steps {
            Some(steps) => match prepare_steps(steps, step_ids) {
                Ok(records) => records,
                Err(error) => {
                    return Err(error);
                },
            },
            None => crate::record::clone_records(&before.definitions),
        };
        let updated = SharedStep {
            id,
            name: match &request.name {
                Some(name) => name.clone(),
                None => before.name.clone(),
            },
            description: match &request.description {
                Some(description) => Some(description.clone()),
                None => crate::step::clone_text(&before.description),
            },
            definitions,
        };
        proof {
            lemma_update_keeps_wf(old(self)@, id, request@, step_ids@);
        }
        self.shared_steps.set(at, updated);
        assert(self@.shared =~= old(self)@.shared.update(at as int, updated@));
        Ok(())
    }

    /// Deletes the shared step `id`, unless steps of test cases refer to
    /// it.
    pub fn delete_shared_step(&mut self, id: u128) -> (outcome: Result<(), StoreError>)
        requires
            old(self).wf(),
        ensures
            final(self).wf(),
            write_view(outcome, final(self)@) == after_delete(old(self)@, id),
            outcome.is_err() ==> final(self)@ == old(self)@,
    {
        match check_deletable(self.reference_count(id)) {
            Err(error) => {
                return Err(error);
            },
            Ok(_) => {},
        }
        let at = match position_of(&self.shared_steps, id) {
            Some(at) => at,
            None => {
                return Err(StoreError::NotFound);
            },
        };
        proof {
            assert(self@.shared[at as int] == self.shared_steps@[at as int]@);
            lemma_position(self@, id, at as int);
            lemma_delete_keeps_wf(old(self)@, id);
        }
        self.shared_steps.remove(at);
        assert(self@.shared =~= old(self)@.shared.remove(at as int));
        Ok(())
    }

    /// Replaces the steps of the test case `case_id` by those that
    /// `requests` describes, validated and numbered from 1, with `ids` as
    /// their identifiers. A reference has to be to a shared step of the
    /// store.
    pub fn replace_case_steps_with_ids(
        &mut self,
        case_id: u128,
        requests: &Vec<CaseStepRequest>,
        ids: &Vec<u128>,
    ) -> (outcome: Result<(), StoreError>)
        requires
            old(self).wf(),
            ids@.len() == requests@.len(),
        ensures
            final(self).wf(),
            write_view(outcome, final(self)@) == after_replace(
                old(self)@,
                case_id,
                case_request_views(requests@),
                ids@,
            ),
            outcome.is_err() ==> final(self)@ == old(self)@,
    {
        let steps = match prepare_case_steps(requests, ids, &self.shared_steps) {
            Ok(steps) => steps,
            Err(error) => {
                return Err(error);
            },
        };
        let ghost before = case_row_views(self.case_rows@);
        let mut rows: Vec<CaseRow> = Vec::new();
        let mut i: usize = 0;
        assert(case_row_views(rows@) =~= without_case(before, case_id, 0));
        while i < self.case_rows.len()
            invariant
                i <= self.case_rows.len(),
                before == case_row_views(self.case_rows@),
                case_row_views(rows@) == without_case(before, case_id, i as int),
            decreases self.case_rows.len() - i,
        {
            assert(before[i as int] == self.case_rows@[i as int]@);
            let ghost kept = case_row_views(rows@);
            let row = &self.case_rows[i];
            if row.case_id != case_id {
                rows.push(CaseRow { case_id: row.case_id, step: row.step.clone() });
                assert(case_row_views(rows@) =~= kept.push(before[i as int]));
            }
            i += 1;
        }
        let ghost kept = case_row_views(rows@);
        let ghost added = crate::record::case_step_views(steps@);
        let mut k: usize = 0;
        let count = steps.len();
        while k < count
            invariant
                k <= count,
                count == steps.len(),
                added == crate::record::case_step_views(steps@),
                rows@.len() == kept.len() + k,
                forall|m: int| 0 <= m < kept.len() ==> (#[trigger] rows@[m])@ == kept[m],
                forall|m: int|
                    0 <= m < k ==> (#[trigger] rows@[kept.len() + m])@ == (CaseRowView {
                        case_id,
                        step: added[m],
                    }),
            decreases count - k,
        {
            assert(added[k as int] == steps@[k as int]@);
            rows.push(CaseRow { case_id, step: steps[k].clone() });
            k += 1;
        }
        assert(case_row_views(rows@) =~= kept + rows_for(case_id, added)) by {
            let joined = kept + rows_for(case_id, added);
            assert(added.len() == count);
            assert(case_row_views(rows@).len() == joined.len());
            assert forall|m: int| 0 <= m < joined.len() implies case_row_views(rows@)[m]
                == joined[m] by {
                if m >= kept.len() {
                    assert(rows@[kept.len() + (m - kept.len())]@ == (CaseRowView {
                        case_id,
                        step: added[m - kept.len()],
                    }));
                } else {
                    assert(rows@[m]@ == kept[m]);
                }
            }
        }
        proof {
            lemma_replace_keeps_wf(old(self)@, case_id, case_request_views(requests@), ids@);
        }
        self.case_rows = rows;
        Ok(())
    }

    /// The steps of the test case `case_id` as stored rows, in their order.
    pub fn rows_of_case(&self, case_id: u128) -> (rows: Vec<crate::record::StepRow>)
        ensures
            crate::record::row_views(rows@) == stored_rows(self@.case_steps(case_id)),
    {
        let ghost all = case_row_views(self.case_rows@);
        let mut rows: Vec<crate::record::StepRow> = Vec::new();
        let mut i: usize = 0;
        assert(crate::record::row_views(rows@) =~= stored_rows(steps_of(all, case_id, 0)));
        while i < self.case_rows.len()
            invariant
                i <= self.case_rows.len(),
                all == case_row_views(self.case_rows@),
                crate::record::row_views(rows@) == stored_rows(steps_of(all, case_id, i as int)),
            decreases self.case_rows.len() - i,
        {
            assert(all[i as int] == self.case_rows@[i as int]@);
            let ghost sofar = steps_of(all, case_id, i as int);
            let ghost shown = crate::record::row_views(rows@);
            if self.case_rows[i].case_id == case_id {
                rows.push(self.case_rows[i].step.to_row());
                assert(steps_of(all, case_id, i + 1) == sofar.push(all[i as int].step));
                assert(crate::record::row_views(rows@) =~= shown.push(all[i as int].step.row()));
                assert(stored_rows(sofar.push(all[i as int].step)) =~= stored_rows(sofar).push(
                    all[i as int].step.row(),
                ));
            }
            i += 1;
        }
        rows
    }

    /// The tree of steps of the test case `case_id`.
    pub fn compose_step_tree(&self, case_id: u128) -> (tree: Vec<crate::composer::StepNode>)
        ensures
            crate::composer::node_views(tree@) == crate::composer::step_tree(
                stored_rows(self@.case_steps(case_id)),
                self@.shared,
            ),
    {
        let rows = self.rows_of_case(case_id);
        crate::composer::compose_step_tree(&rows, &self.shared_steps)
    }

    /// Creates the shared step that `request` describes, under identifiers
    /// that are drawn at random, and returns the identifier of the shared
    /// step. What is created, and when nothing is, is what
    /// [`StepStore::create_shared_step_with_ids`] says for the identifiers
    /// that were drawn.
    pub fn create_shared_step(&mut self, request: &CreateSharedStepRequest) -> (outcome: Result<
        u128,
        StoreError,
    >)
        requires
            old(self).wf(),
        ensures
            final(self).wf(),
            outcome.is_err() ==> final(self)@ == old(self)@,
            outcome.is_ok() ==> exists|step_ids: Seq<u128>|
                step_ids.len() == request.steps@.len() && #[trigger] after_create(
                    old(self)@,
                    request@,
                    outcome->Ok_0,
                    step_ids,
                ) == Ok::<StoreView, StoreErrorView>(final(self)@),
            outcome.is_err() ==> exists|id: u128, step_ids: Seq<u128>|
                step_ids.len() == request.steps@.len() && #[trigger] after_create(
                    old(self)@,
                    request@,
                    id,
                    step_ids,
                ) == Err::<StoreView, StoreErrorView>(outcome->Err_0@),
    {
        let id = fresh_id();
        let step_ids = fresh_ids(request.steps.len());
        let written = self.create_shared_step_with_ids(request, id, &step_ids);
        let outcome = match written {
            Ok(_) => Ok(id),
            Err(error) => Err(error),
        };
        proof {
            let drawn = step_ids@;
            if outcome.is_ok() {
                assert(after_create(old(self)@, request@, outcome->Ok_0, drawn) == Ok::<
                    StoreView,
                    StoreErrorView,
                >(self@));
            } else {
                assert(after_create(old(self)@, request@, id, drawn) == Err::<
                    StoreView,
                    StoreErrorView,
                >(outcome->Err_0@));
            }
        }
        outcome
    }

    /// Updates the shared step `id` as `request` describes, with
    /// identifiers drawn at random for the steps of a new definition. What
    /// is changed, and when nothing is, is what
    /// [`StepStore::update_shared_step_with_ids`] says for the identifiers
    /// that were drawn.
    pub fn update_shared_step(&mut self, id: u128, request: &UpdateSharedStepRequest) -> (outcome:
        Result<(), StoreError>)
        requires
            old(self).wf(),
        ensures
            final(self).wf(),
            outcome.is_err() ==> final(self)@ == old(self)@,
            exists|step_ids: Seq<u128>| #[trigger]
                after_update(old(self)@, id, request@, step_ids) == write_view(
                    outcome,
                    final(self)@,
                ),
    {
        let count = match &request.steps {
            Some(steps) => steps.len(),
            None => 0,
        };
        let step_ids = fresh_ids(count);
        let outcome = self.update_shared_step_with_ids(id, request, &step_ids);
        assert(after_update(old(self)@, id, request@, step_ids@) == write_view(outcome, self@));
        outcome
    }

    /// Replaces the steps of the test case `case_id` by those that
    /// `requests` describes, under identifiers that are drawn at random.
    /// What is stored, and when nothing is, is what
    /// [`StepStore::replace_case_steps_with_ids`] says for the identifiers
    /// that were drawn.
    pub fn replace_case_steps(&mut self, case_id: u128, requests: &Vec<CaseStepRequest>) -> (outcome:
        Result<(), StoreError>)
        requires
            old(self).wf(),
        ensures
            final(self).wf(),
            outcome.is_err() ==> final(self)@ == old(self)@,
            exists|ids: Seq<u128>|
                ids.len() == requests@.len() && #[trigger] after_replace(
                    old(self)@,
                    case_id,
                    case_request_views(requests@),
                    ids,
                ) == write_view(outcome, final(self)@),
    {
        let ids = fresh_ids(requests.len());
        let outcome = self.replace_case_steps_with_ids(case_id, requests, &ids);
        assert(after_replace(old(self)@, case_id, case_request_views(requests@), ids@)
            == write_view(outcome, self@));
        outcome
    }
}

/// The steps of a test case as stored rows.
pub open spec fn stored_rows(steps: Seq<CaseStepView>) -> Seq<crate::record::StepRowView> {
    Seq::new(steps.len(), |i: int| steps[i].row())
}

/// Every step of a test case among the first `upto` stored steps is one of
/// those stored steps.
pub proof fn lemma_steps_of_are_stored(rows: Seq<CaseRowView>, case_id: u128, upto: int)
    requires
        0 <= upto <= rows.len(),
    ensures
        forall|k: int|
            0 <= k < steps_of(rows, case_id, upto).len() ==> exists|i: int|
                0 <= i < upto && rows[i].case_id == case_id && rows[i].step == #[trigger] steps_of(
                    rows,
                    case_id,
                    upto,
                )[k],
    decreases upto,
{
    if upto > 0 {
        lemma_steps_of_are_stored(rows, case_id, upto - 1);
        let before = steps_of(rows, case_id, upto - 1);
        let after = steps_of(rows, case_id, upto);
        assert forall|k: int| 0 <= k < after.len() implies exists|i: int|
            0 <= i < upto && rows[i].case_id == case_id && rows[i].step == #[trigger] after[k] by {
            if k < before.len() {
                let i = choose|i: int|
                    0 <= i < upto - 1 && rows[i].case_id == case_id && rows[i].step == before[k];
                assert(rows[i].step == after[k]);
            } else {
                assert(rows[upto - 1].step == after[k]);
            }
        }
    }
}

/// A shared step whose identifier is in use is found by its identifier.
pub proof fn lemma_find_shared(shared: Seq<SharedStepView>, id: u128, from: int)
    requires
        0 <= from,
        exists|i: int| from <= i < shared.len() && (#[trigger] shared[i]).id == id,
    ensures
        crate::composer::find_shared(shared, id, from).is_some(),
        exists|i: int|
            from <= i < shared.len() && #[trigger] shared[i] == crate::composer::find_shared(
                shared,
                id,
                from,
            ).unwrap(),
    decreases shared.len() - from,
{
    let at = choose|i: int| from <= i < shared.len() && (#[trigger] shared[i]).id == id;
    if shared[from].id != id {
        assert(from + 1 <= at < shared.len() && shared[at].id == id);
        lemma_find_shared(shared, id, from + 1);
        let found = choose|i: int|
            from + 1 <= i < shared.len() && #[trigger] shared[i] == crate::composer::find_shared(
                shared,
                id,
                from + 1,
            ).unwrap();
        assert(shared[found] == crate::composer::find_shared(shared, id, from).unwrap());
    } else {
        assert(shared[from] == crate::composer::find_shared(shared, id, from).unwrap());
    }
}

/// The tree of steps of a test case in a store of which [`StoreView::wf`]
/// holds: every step of the test case has its node, the nodes stand at
/// the places 1, 2, 3 and so on, and every reference shows a shared step
/// of the store, whose steps stand at the places 1, 2, 3 and so on.
pub proof fn lemma_store_tree(store: StoreView, case_id: u128)
    requires
        store.wf(),
    ensures
        crate::composer::step_tree(stored_rows(store.case_steps(case_id)), store.shared).len()
            == store.case_steps(case_id).len(),
        forall|i: int|
            0 <= i < store.case_steps(case_id).len() ==> (#[trigger] crate::composer::step_tree(
                stored_rows(store.case_steps(case_id)),
                store.shared,
            )[i]).step_order() == i + 1,
        forall|i: int|
            0 <= i < store.case_steps(case_id).len() && (#[trigger] crate::composer::step_tree(
                stored_rows(store.case_steps(case_id)),
                store.shared,
            )[i]) is Shared ==> crate::composer::step_tree(
                stored_rows(store.case_steps(case_id)),
                store.shared,
            )[i]->group.is_some() && definitions_dense(
                crate::composer::step_tree(
                    stored_rows(store.case_steps(case_id)),
                    store.shared,
                )[i]->group.unwrap().steps,
            ),
{
    let steps = store.case_steps(case_id);
    let rows = stored_rows(steps);
    let tree = crate::composer::step_tree(rows, store.shared);
    assert forall|i: int| 0 <= i < rows.len() implies !(#[trigger] rows[i] is SharedDefinition) by {
        assert(rows[i] == steps[i].row());
    }
    crate::composer::lemma_tree_of_case_rows(rows, store.shared, rows.len() as int);
    lemma_steps_of_are_stored(store.rows, case_id, store.rows.len() as int);
    assert(steps_dense(steps_of(store.rows, case_id, store.rows.len() as int)));
    assert forall|i: int| 0 <= i < steps.len() implies (#[trigger] tree[i]).step_order() == i + 1 by {
        assert(crate::composer::node_of(rows[i], store.shared) == Some(tree[i]));
        assert(rows[i] == steps[i].row());
        assert(steps[i].step_order() == i + 1);
    }
    assert forall|i: int| 0 <= i < steps.len() && (#[trigger] tree[i]) is Shared implies tree[i]->group.is_some()
        && definitions_dense(tree[i]->group.unwrap().steps) by {
        assert(crate::composer::node_of(rows[i], store.shared) == Some(tree[i]));
        assert(rows[i] == steps[i].row());
        let at = choose|k: int|
            0 <= k < store.rows.len() && store.rows[k].case_id == case_id && store.rows[k].step
                == steps[i];
        assert(store.rows[at].step is SharedReference);
        let wanted = steps[i]->SharedReference_0.shared_step_id;
        assert(id_in_use(store.shared, wanted));
        lemma_find_shared(store.shared, wanted, 0);
        let found = choose|k: int|
            0 <= k < store.shared.len() && #[trigger] store.shared[k]
                == crate::composer::find_shared(store.shared, wanted, 0).unwrap();
        assert(definitions_dense(store.shared[found].definitions));
    }
}

/// What a client is told of an error of the store.
pub open spec fn store_error_message(error: StoreErrorView) -> Seq<char> {
    match error {
        StoreErrorView::NotFound => "Shared step not found"@,
        StoreErrorView::DuplicateName { name } => "Shared step with name '"@ + name
            + "' already exists"@,
        StoreErrorView::ReferencedByInUse {
            count,
        } => "Cannot delete shared step while it is referenced by "@ + decimal(count as nat)
            + " test case step(s)"@,
        StoreErrorView::InvalidStep { index, error } => "Step "@ + decimal((index + 1) as nat)
            + ": "@ + crate::validator::error_message(error),
        StoreErrorView::TooManySteps => "Too many steps"@,
        StoreErrorView::IdConflict => "Identifier already in use"@,
    }
}

impl StoreError {
    /// What a client is told of the error; a step is named by its place in
    /// the submitted list, counted from 1.
    pub fn message(&self) -> (text: String)
        ensures
            text@ == store_error_message(self@),
    {
        match self {
            StoreError::NotFound => "Shared step not found".to_owned(),
            StoreError::DuplicateName { name } => {
                let mut text = concat_texts("Shared step with name '", name.as_str());
                text.append("' already exists");
                text
            },
            StoreError::ReferencedByInUse { count } => {
                let number = decimal_text(*count as u128);
                let mut text = concat_texts(
                    "Cannot delete shared step while it is referenced by ",
                    number.as_str(),
                );
                text.append(" test case step(s)");
                text
            },
            StoreError::InvalidStep { index, error } => {
                let number = decimal_text(*index as u128 + 1);
                let mut text = concat_texts("Step ", number.as_str());
                text.append(": ");
                text.append(error.message().as_str());
                text
            },
            StoreError::TooManySteps => "Too many steps".to_owned(),
            StoreError::IdConflict => "Identifier already in use".to_owned(),
        }
    }
}

} // verus!
