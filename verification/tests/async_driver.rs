use std::collections::VecDeque;
use std::sync::atomic::{AtomicUsize, Ordering};
use std::sync::{Arc, Mutex};

use operation_tasks::accounting::PendingWork;
use operation_tasks::driver::{AdmittedAsyncEffect, EffectStart};
use operation_tasks::protocol::{IdentityAllocator, ObjectIdentity};
use operation_tasks::storage::{AdmittedHead, AdmittedIoEffect, AdmittedRead};
use operation_tasks::{
    AdmittedPlan, AsyncOperationDriver, CancelDisposition, CancelReason, CpuSlice,
    EvaluationLimits, EvaluationPageLimits, FailureKind, OperationFailure, OperationTask,
    RequestKey, Resource, ResourceExhausted, TaskAccounting, TaskAction, TaskId, TaskLimits,
    TaskMachine, TaskProtocolError, TaskRequest, TaskRequestV1, TaskResponseV1, TaskState,
    TaskStep,
};

fn ok<T>(result: Result<T, OperationFailure>) -> T {
    match result {
        Ok(value) => value,
        Err(failure) => panic!("{}", failure.message()),
    }
}

struct Host {
    responses: VecDeque<AdmittedAsyncEffect>,
    calls: Arc<AtomicUsize>,
    cancels: Arc<AtomicUsize>,
    expected: Arc<Mutex<Vec<Option<ObjectIdentity>>>>,
    cancelled: bool,
    work: usize,
}
impl Host {
    fn new(responses: impl IntoIterator<Item = AdmittedAsyncEffect>) -> Self {
        Self {
            responses: responses.into_iter().collect(),
            calls: Arc::default(),
            cancels: Arc::default(),
            expected: Arc::default(),
            cancelled: false,
            work: 1,
        }
    }
}
impl Host {
    fn complete(
        &mut self,
        identity: Option<ObjectIdentity>,
        work: &mut PendingWork<'_>,
    ) -> Result<AdmittedAsyncEffect, OperationFailure> {
        work.charge(self.work).map_err(OperationFailure::from)?;
        self.calls.fetch_add(1, Ordering::SeqCst);
        self.expected.lock().unwrap().push(identity);
        self.responses
            .pop_front()
            .ok_or_else(OperationFailure::malformed_response)
    }
    fn cancel(&mut self) {
        if !self.cancelled {
            self.cancelled = true;
            self.cancels.fetch_add(1, Ordering::SeqCst);
            self.responses.clear();
        }
    }
}

/// Lends the task's pending work to the host for the driver's queued effect.
fn complete_effect(
    driver: &mut AsyncOperationDriver,
    host: &mut Host,
    task: &mut TaskMachine<Effects>,
) -> Result<RequestKey, TaskProtocolError> {
    let mut work = task.pending_work()?;
    match driver.begin_effect(work.key())? {
        EffectStart::Refused { key } => {
            host.cancel();
            Ok(key)
        }
        EffectStart::Run {
            expected_identity, ..
        } => {
            let result = host.complete(expected_identity, &mut work);
            let end = driver.finish_effect(result)?;
            if end.cancel_host {
                host.cancel();
            }
            Ok(end.key)
        }
    }
}

struct Effects {
    requests: VecDeque<TaskRequestV1>,
    kernel_work: usize,
}
impl TaskState for Effects {
    type Output = ();
    fn retained_bytes(&self) -> Result<usize, ResourceExhausted> {
        let mut bytes = self.requests.capacity() * std::mem::size_of::<TaskRequestV1>();
        for request in &self.requests {
            bytes += match request {
                TaskRequestV1::Head { path } | TaskRequestV1::Read { path, .. } => path.capacity(),
                TaskRequestV1::EvaluationStart { plan, .. } => plan.retained_bytes(),
                _ => 0,
            };
        }
        Ok(bytes)
    }
    fn advance(
        &mut self,
        _: CpuSlice,
        accounting: &mut TaskAccounting,
    ) -> Result<TaskAction<()>, OperationFailure> {
        accounting
            .charge(Resource::WorkUnits, self.kernel_work)
            .map_err(OperationFailure::from)?;
        Ok(TaskAction::Request)
    }
    fn take_request(&mut self, _: &mut TaskAccounting) -> Result<TaskRequestV1, OperationFailure> {
        self.requests
            .pop_front()
            .ok_or_else(OperationFailure::malformed_response)
    }
    fn resume(
        &mut self,
        _: TaskResponseV1,
        _: CpuSlice,
        _: &mut TaskAccounting,
    ) -> Result<TaskAction<()>, OperationFailure> {
        Ok(if self.requests.is_empty() {
            TaskAction::Complete(())
        } else {
            TaskAction::Request
        })
    }
}
fn cpu() -> CpuSlice {
    CpuSlice::new(1024, 1 << 20, 256).unwrap()
}
fn machine(
    id: TaskId,
    requests: impl IntoIterator<Item = TaskRequestV1>,
    limits: TaskLimits,
    kernel_work: usize,
) -> TaskMachine<Effects> {
    ok(TaskMachine::new(
        id,
        Effects {
            requests: requests.into_iter().collect(),
            kernel_work,
        },
        limits,
    ))
}
fn effect(step: TaskStep<()>) -> TaskRequest {
    let TaskStep::Execute(request) = step else {
        panic!("request expected")
    };
    request
}
fn limits() -> EvaluationLimits {
    EvaluationLimits::new(EvaluationPageLimits::new(1, 1, 256).unwrap(), 4, 4, 4, 1024)
}
fn plan() -> AdmittedPlan {
    AdmittedPlan::try_i64_values("id", &[], &[1], &TaskLimits::qualification()).unwrap()
}

#[test]
fn async_head_read_uses_shared_identity_and_shape_validation() {
    let original = ObjectIdentity::new([1; 32]);
    let replacement = ObjectIdentity::new([2; 32]);
    let mut host = Host::new([
        AdmittedAsyncEffect::Io(AdmittedIoEffect::Head(AdmittedHead {
            identity: original,
            size: 1,
        })),
        AdmittedAsyncEffect::Io(AdmittedIoEffect::Read(AdmittedRead {
            identity: replacement,
            offset: 0,
            bytes: vec![7],
            eof: true,
        })),
    ]);
    let observed = host.expected.clone();
    let cancels = host.cancels.clone();
    let mut ids = IdentityAllocator::new();
    let (id, mut driver) = AsyncOperationDriver::allocate(&mut ids, TaskLimits::qualification()).unwrap();
    let mut task = machine(
        id,
        [
            TaskRequestV1::Head {
                path: "memory:///a".into(),
            },
            TaskRequestV1::Read {
                path: "memory:///a".into(),
                offset: 0,
                length: 1,
            },
        ],
        TaskLimits::qualification(),
        1,
    );
    let key = driver.dispatch(effect(task.start(cpu()).unwrap())).unwrap();
    complete_effect(&mut driver, &mut host, &mut task)
        .unwrap();
    let response = ok(driver.take_response(key).unwrap());
    assert!(matches!(response, TaskResponseV1::Head { size: 1 }));
    let key = driver
        .dispatch(effect(task.resume(key, Ok(response), cpu()).unwrap()))
        .unwrap();
    complete_effect(&mut driver, &mut host, &mut task)
        .unwrap();
    assert!(driver.take_response(key).unwrap().is_err());
    assert_eq!(*observed.lock().unwrap(), vec![None, Some(original)]);
    assert_eq!(cancels.load(Ordering::SeqCst), 1);
}

#[test]
fn dropped_completion_requires_cancellation_without_retrying_effect() {
    let mut host = Host::new([]);
    let calls = host.calls.clone();
    let cancels = host.cancels.clone();
    let mut ids = IdentityAllocator::new();
    let (id, mut driver) = AsyncOperationDriver::allocate(&mut ids, TaskLimits::qualification()).unwrap();
    let mut task = machine(
        id,
        [TaskRequestV1::Head {
            path: "memory:///a".into(),
        }],
        TaskLimits::qualification(),
        1,
    );
    let key = driver.dispatch(effect(task.start(cpu()).unwrap())).unwrap();
    {
        let mut work = task.pending_work().unwrap();
        let EffectStart::Run { .. } = driver.begin_effect(work.key()).unwrap() else {
            panic!("the effect must reach the host")
        };
        // The completion is abandoned after the host has started its work.
        let _abandoned = host.complete(None, &mut work);
    }
    assert_eq!(
        complete_effect(&mut driver, &mut host, &mut task),
        Err(TaskProtocolError::PendingRequest)
    );
    assert_eq!(calls.load(Ordering::SeqCst), 1);
    assert_eq!(task.accounting().usage(Resource::WorkUnits).consumed(), 2);
    driver.cancel(Some(key)).unwrap();
    host.cancel();
    task.cancel(CancelReason::Caller);
    assert_eq!(task.accounting().usage(Resource::WorkUnits).consumed(), 2);
    assert_eq!(cancels.load(Ordering::SeqCst), 1);
}

#[test]
fn wrong_evaluation_identity_releases_host_and_preserves_response_key() {
    let mut ids = IdentityAllocator::new();
    let (_, other) =
        AsyncOperationDriver::allocate(&mut ids, TaskLimits::qualification()).unwrap();
    let foreign = other.allocate_evaluation(&mut ids).unwrap();
    let mut host = Host::new([AdmittedAsyncEffect::Evaluation {
        evaluation: foreign,
        page: None,
    }]);
    let cancels = host.cancels.clone();
    let (id, mut driver) = AsyncOperationDriver::allocate(&mut ids, TaskLimits::qualification()).unwrap();
    let evaluation = driver.allocate_evaluation(&mut ids).unwrap();
    let numeric_id = id.get();
    let mut task = machine(
        id,
        [TaskRequestV1::EvaluationStart {
            evaluation,
            plan: plan(),
            limits: limits(),
        }],
        TaskLimits::qualification(),
        1,
    );
    let key = driver.dispatch(effect(task.start(cpu()).unwrap())).unwrap();
    complete_effect(&mut driver, &mut host, &mut task)
        .unwrap();
    assert!(matches!(
        driver.take_response(RequestKey::new(numeric_id, 2).unwrap()),
        Err(TaskProtocolError::WrongKey)
    ));
    assert!(driver.take_response(key).unwrap().is_err());
    assert_eq!(cancels.load(Ordering::SeqCst), 1);
}

#[test]
fn kernel_and_host_share_exact_work_limit_before_host_side_effects() {
    for (allowance, pass) in [(12, true), (11, false)] {
        let limits = TaskLimits::qualification().with_limit(Resource::WorkUnits, allowance);
        let mut host = Host::new([AdmittedAsyncEffect::Io(AdmittedIoEffect::Head(
            AdmittedHead {
                identity: ObjectIdentity::new([1; 32]),
                size: 1,
            },
        ))]);
        host.work = 7;
        let calls = host.calls.clone();
        let mut ids = IdentityAllocator::new();
    let (id, mut driver) = AsyncOperationDriver::allocate(&mut ids, limits).unwrap();
        let mut task = machine(
            id,
            [TaskRequestV1::Head {
                path: "memory:///a".into(),
            }],
            limits,
            5,
        );
        let key = driver.dispatch(effect(task.start(cpu()).unwrap())).unwrap();
        complete_effect(&mut driver, &mut host, &mut task)
            .unwrap();
        let response = driver.take_response(key).unwrap();
        assert_eq!(response.is_ok(), pass);
        assert_eq!(calls.load(Ordering::SeqCst), usize::from(pass));
        assert_eq!(
            task.accounting().usage(Resource::WorkUnits).consumed(),
            if pass { 12 } else { 5 }
        );
        if !pass {
            assert!(
                matches!(response.err().unwrap().kind(), FailureKind::ResourceExhausted(e)
            if e.resource == Resource::WorkUnits && e.observed == 12)
            );
        }
    }
}

#[test]
fn wrong_and_stale_work_loans_do_not_invoke_host() {
    let mut host = Host::new([AdmittedAsyncEffect::Io(AdmittedIoEffect::Head(
        AdmittedHead {
            identity: ObjectIdentity::new([1; 32]),
            size: 1,
        },
    ))]);
    let calls = host.calls.clone();
    let limits = TaskLimits::qualification();
    let mut ids = IdentityAllocator::new();
    let (id, mut driver) = AsyncOperationDriver::allocate(&mut ids, limits).unwrap();
    let numeric_id = id.get();
    let mut task = machine(
        id,
        [TaskRequestV1::Head {
            path: "memory:///a".into(),
        }],
        limits,
        1,
    );
    let key = driver.dispatch(effect(task.start(cpu()).unwrap())).unwrap();
    let mut other = machine(
        TaskId::allocate(&mut ids).unwrap(),
        [TaskRequestV1::Head {
            path: "memory:///b".into(),
        }],
        limits,
        1,
    );
    let _other_request = effect(other.start(cpu()).unwrap());
    assert_eq!(
        complete_effect(&mut driver, &mut host, &mut other),
        Err(TaskProtocolError::WrongKey)
    );
    assert_eq!(calls.load(Ordering::SeqCst), 0);
    complete_effect(&mut driver, &mut host, &mut task)
        .unwrap();
    let _response = driver.take_response(key).unwrap();
    // Forge a second driver request without resuming the task's first one.
    // Its pending work loan remains tied to the first key and cannot authorize it.
    driver
        .dispatch(TaskRequest {
            key: RequestKey::new(numeric_id, 2).unwrap(),
            operation: TaskRequestV1::Head {
                path: "memory:///a".into(),
            },
        })
        .unwrap();
    assert_eq!(
        complete_effect(&mut driver, &mut host, &mut task),
        Err(TaskProtocolError::WrongKey)
    );
    assert_eq!(calls.load(Ordering::SeqCst), 1);
}

#[test]
fn pending_work_overflow_preserves_the_successful_charge() {
    let limits = TaskLimits::qualification().with_limit(Resource::WorkUnits, usize::MAX);
    let mut task = machine(
        TaskId::allocate(&mut IdentityAllocator::new()).unwrap(),
        [TaskRequestV1::Head {
            path: "memory:///a".into(),
        }],
        limits,
        1,
    );
    assert!(task.pending_work().is_err());
    let _request = effect(task.start(cpu()).unwrap());
    let retained = task.accounting().usage(Resource::TaskStateBytes).live()
        - std::mem::size_of::<TaskMachine<Effects>>();
    let mut work = task.pending_work().unwrap();
    work.charge(usize::MAX - 1).unwrap();
    assert_eq!(work.remaining(), 0);
    assert_eq!(
        work.retained_task_bytes(),
        std::mem::size_of::<TaskMachine<Effects>>() + retained
    );
    assert_eq!(work.charge(1).unwrap_err().observed, usize::MAX);
    assert_eq!(
        task.accounting().usage(Resource::WorkUnits).consumed(),
        usize::MAX
    );
    task.cancel(CancelReason::Caller);
    assert!(task.pending_work().is_err());
    assert_eq!(
        task.accounting().usage(Resource::WorkUnits).consumed(),
        usize::MAX
    );
}

#[test]
fn synchronous_operation_task_implementation_needs_no_host_work_method() {
    struct ExistingTask;
    impl OperationTask for ExistingTask {
        type Output = ();
        fn start(&mut self, _: CpuSlice) -> Result<TaskStep<()>, TaskProtocolError> {
            Ok(TaskStep::Complete(()))
        }
        fn progress(&mut self, _: CpuSlice) -> Result<TaskStep<()>, TaskProtocolError> {
            Err(TaskProtocolError::Terminal)
        }
        fn resume(
            &mut self,
            _: RequestKey,
            _: Result<TaskResponseV1, OperationFailure>,
            _: CpuSlice,
        ) -> Result<TaskStep<()>, TaskProtocolError> {
            Err(TaskProtocolError::Terminal)
        }
        fn cancel(&mut self, _: CancelReason) -> CancelDisposition {
            CancelDisposition::AlreadyTerminal
        }
    }
    let mut task = ExistingTask;
    assert!(matches!(
        task.pending_work(),
        Err(TaskProtocolError::HostWorkUnavailable)
    ));
    assert!(matches!(task.start(cpu()).unwrap(), TaskStep::Complete(())));
}
