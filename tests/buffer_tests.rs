use hpc_core::buffer::{reports_complete, wait_result};
use hpc_core::{ClError, GpuBuffer, Metrics, Queued, Tracer};

#[test]
fn zero_length_is_rejected_before_the_runtime_is_asked() {
    let mut m = Metrics::new();
    let r = GpuBuffer::<Queued>::new(0, |_| panic!("the runtime must not be asked"), &mut m);
    assert!(matches!(r, Err(ClError::InvalidSize(0))));
    assert_eq!(m.allocations(), 0);
    assert_eq!(m.sample_count(), 0);
}

#[test]
fn a_failed_allocation_reports_its_code_and_is_not_counted() {
    let mut m = Metrics::new();
    let r = GpuBuffer::<Queued>::new(
        4096,
        |n| {
            assert_eq!(n, 4096);
            Err(opencl3::error_codes::ClError(-4))
        },
        &mut m,
    );
    assert!(matches!(r, Err(ClError::Api(-4))));
    assert_eq!(m.allocations(), 0);
    assert_eq!(m.allocated_bytes(), 0);
}

#[test]
fn from_slice_fails_as_new_fails() {
    let mut m = Metrics::new();
    let mut t = Tracer::new();
    let r = GpuBuffer::<Queued>::from_slice(
        &[],
        |_| panic!("the runtime must not be asked"),
        |_, _| panic!("nothing may be submitted"),
        &mut m,
        &mut t,
    );
    assert!(matches!(r, Err(ClError::InvalidSize(0))));
    let data = [0xABu8; 16];
    let r = GpuBuffer::<Queued>::from_slice(
        &data,
        |_| Err(opencl3::error_codes::ClError(-61)),
        |_, _| panic!("nothing may be submitted"),
        &mut m,
        &mut t,
    );
    assert!(matches!(r, Err(ClError::Api(-61))));
    assert_eq!(t.records().len(), 0);
}

#[test]
fn errors_convert_from_runtime_codes() {
    assert_eq!(ClError::from(-5), ClError::Api(-5));
    assert_eq!(ClError::from(opencl3::error_codes::ClError(-36)), ClError::Api(-36));
    assert_eq!(ClError::Api(-36).code(), Some(-36));
    assert_eq!(ClError::InvalidSize(0).code(), None);
}

#[test]
fn wait_status_maps_to_the_library_error() {
    assert_eq!(wait_result(Ok(())), Ok(()));
    assert_eq!(wait_result(Err(opencl3::error_codes::ClError(-14))), Err(ClError::Api(-14)));
}

#[test]
fn only_the_complete_status_reports_completion() {
    assert!(reports_complete(&Ok(0)));
    // CL_RUNNING, CL_SUBMITTED, CL_QUEUED
    assert!(!reports_complete(&Ok(1)));
    assert!(!reports_complete(&Ok(2)));
    assert!(!reports_complete(&Ok(3)));
    // a failed command reports a negative status
    assert!(!reports_complete(&Ok(-5)));
    assert!(!reports_complete(&Err(opencl3::error_codes::ClError(-58))));
}

#[test]
fn a_refused_allocation_is_returned_uncounted() {
    let mut m = Metrics::new();
    let t = std::time::Instant::now();
    let r = GpuBuffer::<Queued>::from_allocation(Err(opencl3::error_codes::ClError(-61)), 64, &t, &mut m);
    assert!(matches!(r, Err(ClError::Api(-61))));
    assert_eq!(m.allocations(), 0);
    assert_eq!(m.sample_count(), 0);
}
