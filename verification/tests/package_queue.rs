use wine_winget::install_flow::PackageQueue;

fn queue(names: &[&str]) -> PackageQueue {
    PackageQueue::new(names.iter().map(|n| n.to_string()).collect())
}

#[test]
fn packages_are_installed_in_order() {
    let mut q = queue(&["A.A", "B.B"]);
    assert_eq!(q.current(), Some(0));
    q.finish(true);
    assert_eq!(q.current(), Some(1));
    q.finish(true);
    assert_eq!(q.current(), None);
    q.finish(true);
    assert_eq!(q.next, 2);
}

#[test]
fn first_failure_stops_the_rest() {
    let mut q = queue(&["A.A", "B.B", "C.C"]);
    q.finish(true);
    q.finish(false);
    assert!(q.stopped);
    assert_eq!(q.current(), None);
    q.finish(true);
    assert_eq!(q.current(), None);
    assert_eq!(q.next, 1);
}

#[test]
fn empty_queue_has_nothing_to_install() {
    assert_eq!(queue(&[]).current(), None);
}

#[test]
fn whole_run_stops_after_failing_package() {
    let mut q = queue(&["A.A", "B.B", "C.C", "D.D"]);
    let outcomes = [true, true, false, true];
    let mut installed = Vec::new();
    let mut k = 0;
    while let Some(i) = q.current() {
        installed.push(i);
        q.finish(outcomes[k]);
        k += 1;
    }
    assert_eq!(installed, vec![0, 1, 2]);
}
