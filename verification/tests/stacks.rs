//! Stack acquisition over the simulated memory source: rounding,
//! bounds, error paths, disjointness, release.

use fringe::mem::SimSource;
use fringe::stacks::{Stack, StackError, StackSource};

const PAGE: usize = 4096;

fn acquire(source: &mut SimSource, size: usize) -> Stack {
    StackSource.get_stack(source, size).expect("acquisition failed")
}

#[test]
fn len_is_smallest_page_multiple_covering_request_plus_guard() {
    let mut source = SimSource::new(PAGE);
    // one byte still needs a usable page plus the guard page
    assert_eq!(acquire(&mut source, 1).len(), 2 * PAGE);
    assert_eq!(acquire(&mut source, PAGE).len(), 2 * PAGE);
    assert_eq!(acquire(&mut source, PAGE + 1).len(), 3 * PAGE);
    assert_eq!(acquire(&mut source, 65536).len(), 65536 + PAGE);
}

#[test]
fn usable_span_covers_request() {
    let mut source = SimSource::new(PAGE);
    for size in [1usize, 100, PAGE - 1, PAGE, PAGE + 1, 65536] {
        let mut stack = acquire(&mut source, size);
        let limit = stack.limit();
        let top = stack.top();
        assert!(top - limit >= size);
    }
}

#[test]
fn limit_sits_one_page_above_base() {
    let mut source = SimSource::new(PAGE);
    let mut stack = acquire(&mut source, 40000);
    let len = stack.len();
    let top = stack.top();
    let limit = stack.limit();
    assert_eq!(limit, top - len + PAGE);
    assert_eq!(top - limit, len - PAGE);
    assert_eq!(stack.page_size(), PAGE);
}

#[test]
fn map_failure_reports_map_error() {
    let mut source = SimSource::failing(PAGE, true, false, 12);
    let got = StackSource.get_stack(&mut source, 100);
    assert!(matches!(got, Err(StackError::MapFailed(12))));
}

#[test]
fn protect_failure_reports_protect_error() {
    let mut source = SimSource::failing(PAGE, false, true, 13);
    let got = StackSource.get_stack(&mut source, 100);
    assert!(matches!(got, Err(StackError::ProtectFailed(13))));
}

#[test]
fn two_acquisitions_do_not_overlap() {
    let mut source = SimSource::new(PAGE);
    let mut first = acquire(&mut source, 30000);
    let mut second = acquire(&mut source, 30000);
    let first_top = first.top();
    let first_base = first_top - first.len();
    let second_top = second.top();
    let second_base = second_top - second.len();
    assert!(first_top <= second_base || second_top <= first_base);
}

#[test]
fn destroy_releases_the_region() {
    let mut source = SimSource::new(PAGE);
    let stack = acquire(&mut source, 8192);
    assert!(stack.destroy(&mut source).is_ok());
}
