//! The preparation of submitted steps for the store: every step is judged
//! by the validator, and the steps of an accepted list are numbered from 1
//! in the order in which they were submitted.
use crate::composer::{shared_views, SharedStep, SharedStepView};
use crate::record::{
    record_views, CaseStep, CaseStepView, ReferenceRecord, StepContent, StepContentView,
    StepRecord, StepRecordView,
};
use crate::step::{request_views, CreateTestStepRequest, StepRequestView};
use crate::store::{id_in_use, position_of, StoreError, StoreErrorView};
use crate::validator::{validate_and_prepare_step, validated};
use vstd::prelude::*;

verus! {

/// What is stored of an accepted step.
pub open spec fn content_of(step: StepRequestView) -> StepContentView {
    StepContentView {
        action_type: step.action_type,
        action_params: validated(step)->Ok_0.0,
        assertions: validated(step)->Ok_0.1,
        custom_expected_result: step.custom_expected_result,
    }
}

/// The position of the first step from `from` on that the validator
/// refuses.
pub open spec fn first_invalid(steps: Seq<StepRequestView>, from: int) -> Option<int>
    decreases steps.len() - from,
{
    if from < 0 || from >= steps.len() {
        None
    } else if validated(steps[from]).is_err() {
        Some(from)
    } else {
        first_invalid(steps, from + 1)
    }
}

/// The records of a list of accepted steps: each with its identifier, at
/// the place of its position in the list, counted from 1.
pub open spec fn numbered(steps: Seq<StepRequestView>, ids: Seq<u128>) -> Seq<StepRecordView> {
    Seq::new(
        steps.len(),
        |i: int| StepRecordView { id: ids[i], step_order: i + 1, content: content_of(steps[i]) },
    )
}

/// What becomes of a submitted list of steps: the records of its steps,
/// numbered from 1, or the reason why the first step that is refused is
/// refused. A list too long to number is refused before any step is looked
/// at.
pub open spec fn prepared(steps: Seq<StepRequestView>, ids: Seq<u128>) -> Result<
    Seq<StepRecordView>,
    StoreErrorView,
> {
    if steps.len() > i32::MAX {
        Err(StoreErrorView::TooManySteps)
    } else {
        match first_invalid(steps, 0) {
            Some(index) => Err(
                StoreErrorView::InvalidStep { index, error: validated(steps[index])->Err_0 },
            ),
            None => Ok(numbered(steps, ids)),
        }
    }
}

/// The model of a list of records or the error in its place.
pub open spec fn records_view(outcome: Result<Vec<StepRecord>, StoreError>) -> Result<
    Seq<StepRecordView>,
    StoreErrorView,
> {
    match outcome {
        Ok(records) => Ok(record_views(records@)),
        Err(error) => Err(error@),
    }
}

/// Validates a submitted list of steps and numbers them from 1, whatever
/// places the steps claim. `ids` holds the identifiers that the records are
/// to have.
pub fn prepare_steps(steps: &Vec<CreateTestStepRequest>, ids: &Vec<u128>) -> (outcome: Result<
    Vec<StepRecord>,
    StoreError,
>)
    requires
        ids@.len() == steps@.len(),
    ensures
        records_view(outcome) == prepared(request_views(steps@), ids@),
{
    if steps.len() > 0x7FFF_FFFF {
        return Err(StoreError::TooManySteps);
    }
    let ghost all = request_views(steps@);
    let mut records: Vec<StepRecord> = Vec::new();
    let mut i: usize = 0;
    while i < steps.len()
        invariant
            i <= steps.len(),
            steps.len() <= 0x7FFF_FFFF,
            ids@.len() == steps@.len(),
            all == request_views(steps@),
            first_invalid(all, 0) == first_invalid(all, i as int),
            records@.len() == i,
            forall|k: int| 0 <= k < i ==> (#[trigger] records@[k])@ == numbered(all, ids@)[k],
        decreases steps.len() - i,
    {
        assert(all[i as int] == steps@[i as int]@);
        let step = &steps[i];
        match validate_and_prepare_step(step) {
            Err(error) => {
                return Err(StoreError::InvalidStep { index: i, error });
            },
            Ok((action_params, assertions)) => {
                records.push(
                    StepRecord {
                        id: ids[i],
                        step_order: (i + 1) as i32,
                        content: StepContent {
                            action_type: step.action_type.clone(),
                            action_params,
                            assertions,
                            custom_expected_result: crate::step::clone_text(
                                &step.custom_expected_result,
                            ),
                        },
                    },
                );
            },
        }
        i += 1;
    }
    assert(record_views(records@) =~= numbered(all, ids@));
    Ok(records)
}

/// The records of a prepared list stand at the places 1, 2, 3 and so on.
pub proof fn lemma_numbered_dense(steps: Seq<StepRequestView>, ids: Seq<u128>)
    ensures
        numbered(steps, ids).len() == steps.len(),
        forall|i: int| 0 <= i < steps.len() ==> (#[trigger] numbered(steps, ids)[i]).step_order == i + 1,
{
}

/// A step of a test case as a client submits it: a step with an action of
/// its own, or a reference to a shared step.
#[derive(Debug)]
pub enum CaseStepRequest {
    Regular(CreateTestStepRequest),
    SharedReference { shared_step_id: u128 },
}

/// Mathematical model of a [`CaseStepRequest`].
pub enum CaseStepRequestView {
    Regular(StepRequestView),
    SharedReference { shared_step_id: u128 },
}

impl View for CaseStepRequest {
    type V = CaseStepRequestView;

    open spec fn view(&self) -> CaseStepRequestView {
        match self {
            CaseStepRequest::Regular(step) => CaseStepRequestView::Regular(step@),
            CaseStepRequest::SharedReference {
                shared_step_id,
            } => CaseStepRequestView::SharedReference { shared_step_id: *shared_step_id },
        }
    }
}

/// The views of a list of submitted steps of a test case.
pub open spec fn case_request_views(list: Seq<CaseStepRequest>) -> Seq<CaseStepRequestView> {
    Seq::new(list.len(), |i: int| list[i]@)
}

/// Why the submitted step at position `index` is refused, if it is: a step
/// with an action of its own by the validator, a reference because there is
/// no such shared step.
pub open spec fn case_step_error(
    request: CaseStepRequestView,
    shared: Seq<SharedStepView>,
    index: int,
) -> Option<StoreErrorView> {
    match request {
        CaseStepRequestView::Regular(step) => if validated(step).is_err() {
            Some(StoreErrorView::InvalidStep { index, error: validated(step)->Err_0 })
        } else {
            None
        },
        CaseStepRequestView::SharedReference { shared_step_id } => if id_in_use(
            shared,
            shared_step_id,
        ) {
            None
        } else {
            Some(StoreErrorView::NotFound)
        },
    }
}

/// The error of the first submitted step from position `from` on that is
/// refused.
pub open spec fn first_case_error(
    requests: Seq<CaseStepRequestView>,
    shared: Seq<SharedStepView>,
    from: int,
) -> Option<StoreErrorView>
    decreases requests.len() - from,
{
    if from < 0 || from >= requests.len() {
        None
    } else {
        match case_step_error(requests[from], shared, from) {
            Some(error) => Some(error),
            None => first_case_error(requests, shared, from + 1),
        }
    }
}

/// The step that is stored for an accepted submitted step, with the
/// identifier `id`, at the place `place`.
pub open spec fn case_record(request: CaseStepRequestView, id: u128, place: int) -> CaseStepView {
    match request {
        CaseStepRequestView::Regular(step) => CaseStepView::Regular(
            StepRecordView { id, step_order: place, content: content_of(step) },
        ),
        CaseStepRequestView::SharedReference { shared_step_id } => CaseStepView::SharedReference(
            ReferenceRecord { id, step_order: place as i32, shared_step_id },
        ),
    }
}

/// The steps that are stored for an accepted list, numbered from 1.
pub open spec fn case_numbered(requests: Seq<CaseStepRequestView>, ids: Seq<u128>) -> Seq<
    CaseStepView,
> {
    Seq::new(requests.len(), |i: int| case_record(requests[i], ids[i], i + 1))
}

/// What becomes of a submitted list of steps of a test case: the steps that
/// are stored, numbered from 1, or the reason why the first step that is
/// refused is refused. A list too long to number is refused before any step
/// is looked at.
pub open spec fn case_prepared(
    requests: Seq<CaseStepRequestView>,
    ids: Seq<u128>,
    shared: Seq<SharedStepView>,
) -> Result<Seq<CaseStepView>, StoreErrorView> {
    if requests.len() > i32::MAX {
        Err(StoreErrorView::TooManySteps)
    } else {
        match first_case_error(requests, shared, 0) {
            Some(error) => Err(error),
            None => Ok(case_numbered(requests, ids)),
        }
    }
}

/// The model of a list of steps of a test case or the error in its place.
pub open spec fn case_steps_view(outcome: Result<Vec<CaseStep>, StoreError>) -> Result<
    Seq<CaseStepView>,
    StoreErrorView,
> {
    match outcome {
        Ok(steps) => Ok(crate::record::case_step_views(steps@)),
        Err(error) => Err(error@),
    }
}

/// Validates a submitted list of steps of a test case against the
/// validator and the shared steps `shared`, and numbers them from 1. `ids`
/// holds the identifiers that the steps are to have.
pub fn prepare_case_steps(
    requests: &Vec<CaseStepRequest>,
    ids: &Vec<u128>,
    shared: &Vec<SharedStep>,
) -> (outcome: Result<Vec<CaseStep>, StoreError>)
    requires
        ids@.len() == requests@.len(),
    ensures
        case_steps_view(outcome) == case_prepared(
            case_request_views(requests@),
            ids@,
            shared_views(shared@),
        ),
{
    if requests.len() > 0x7FFF_FFFF {
        return Err(StoreError::TooManySteps);
    }
    let ghost all = case_request_views(requests@);
    let ghost known = shared_views(shared@);
    let mut steps: Vec<CaseStep> = Vec::new();
    let mut i: usize = 0;
    while i < requests.len()
        invariant
            i <= requests.len(),
            requests.len() <= 0x7FFF_FFFF,
            ids@.len() == requests@.len(),
            all == case_request_views(requests@),
            known == shared_views(shared@),
            first_case_error(all, known, 0) == first_case_error(all, known, i as int),
            steps@.len() == i,
            forall|k: int| 0 <= k < i ==> (#[trigger] steps@[k])@ == case_numbered(all, ids@)[k],
        decreases requests.len() - i,
    {
        assert(all[i as int] == requests@[i as int]@);
        match &requests[i] {
            CaseStepRequest::Regular(step) => match validate_and_prepare_step(step) {
                Err(error) => {
                    return Err(StoreError::InvalidStep { index: i, error });
                },
                Ok((action_params, assertions)) => {
                    steps.push(
                        CaseStep::Regular(
                            StepRecord {
                                id: ids[i],
                                step_order: (i + 1) as i32,
                                content: StepContent {
                                    action_type: step.action_type.clone(),
                                    action_params,
                                    assertions,
                                    custom_expected_result: crate::step::clone_text(
                                        &step.custom_expected_result,
                                    ),
                                },
                            },
                        ),
                    );
                },
            },
            CaseStepRequest::SharedReference { shared_step_id } => {
                if position_of(shared, *shared_step_id).is_none() {
                    return Err(StoreError::NotFound);
                }
                steps.push(
                    CaseStep::SharedReference(
                        ReferenceRecord {
                            id: ids[i],
                            step_order: (i + 1) as i32,
                            shared_step_id: *shared_step_id,
                        },
                    ),
                );
            },
        }
        i += 1;
    }
    assert(crate::record::case_step_views(steps@) =~= case_numbered(all, ids@));
    Ok(steps)
}

/// A list without an error from position `from` on has no step with an
/// error there.
pub proof fn lemma_no_case_error(
    requests: Seq<CaseStepRequestView>,
    shared: Seq<SharedStepView>,
    from: int,
)
    requires
        0 <= from,
        first_case_error(requests, shared, from).is_none(),
    ensures
        forall|at: int|
            from <= at < requests.len() ==> case_step_error(#[trigger] requests[at], shared, at).is_none(),
    decreases requests.len() - from,
{
    if from < requests.len() {
        lemma_no_case_error(requests, shared, from + 1);
    }
}

} // verus!
