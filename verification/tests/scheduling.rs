use printer_scan::scheduler::{Dispatch, Scheduler};

/// Runs a schedule to its end. Examinations end in an order picked by
/// `pick`, which is given the number under way and returns how many of them
/// end before the schedule is asked again (at least one).
fn run(total: usize, limit: usize, pick: &dyn Fn(usize, usize) -> usize) -> (Vec<usize>, usize) {
    let mut schedule = Scheduler::new(total, limit);
    let mut started = Vec::new();
    let mut peak = 0;
    let mut round = 0;
    loop {
        assert!(schedule.in_flight() <= limit);
        match schedule.poll() {
            Dispatch::Start(index) => {
                started.push(index);
                assert!(schedule.in_flight() <= limit);
                if schedule.in_flight() > peak {
                    peak = schedule.in_flight();
                }
            }
            Dispatch::Wait => {
                let under_way = schedule.in_flight();
                assert!(under_way > 0);
                let ending = pick(round, under_way).clamp(1, under_way);
                for _ in 0..ending {
                    assert!(schedule.complete());
                }
                round += 1;
            }
            Dispatch::Done => {
                assert_eq!(schedule.in_flight(), 0);
                assert_eq!(schedule.finished(), total);
                return (started, peak);
            }
            Dispatch::Stalled => panic!("stalled with a limit of {}", limit),
        }
    }
}

#[test]
fn never_more_than_the_limit_under_way() {
    for total in 0..40usize {
        for limit in 1..12usize {
            let (started, peak) = run(total, limit, &|_, _| 1);
            assert_eq!(started, (0..total).collect::<Vec<usize>>());
            assert_eq!(peak, total.min(limit));
            let (started, peak) = run(total, limit, &|round, under_way| (round * 7 + 3) % (under_way + 1));
            assert_eq!(started, (0..total).collect::<Vec<usize>>());
            assert!(peak <= limit);
        }
    }
}

#[test]
fn hosts_are_begun_until_the_limit_is_reached() {
    let mut schedule = Scheduler::new(5, 2);
    assert_eq!(schedule.poll(), Dispatch::Start(0));
    assert_eq!(schedule.poll(), Dispatch::Start(1));
    assert_eq!(schedule.in_flight(), 2);
    assert_eq!(schedule.poll(), Dispatch::Wait);
    assert_eq!(schedule.poll(), Dispatch::Wait);
    assert!(schedule.complete());
    assert_eq!(schedule.in_flight(), 1);
    assert_eq!(schedule.poll(), Dispatch::Start(2));
    assert_eq!(schedule.poll(), Dispatch::Wait);
    assert!(schedule.complete());
    assert!(schedule.complete());
    assert_eq!(schedule.poll(), Dispatch::Start(3));
    assert_eq!(schedule.poll(), Dispatch::Start(4));
    assert_eq!(schedule.poll(), Dispatch::Wait);
    assert!(schedule.complete());
    assert_eq!(schedule.poll(), Dispatch::Wait);
    assert!(schedule.complete());
    assert_eq!(schedule.poll(), Dispatch::Done);
    assert_eq!(schedule.poll(), Dispatch::Done);
    assert_eq!(schedule.finished(), 5);
}

#[test]
fn limit_above_the_number_of_hosts() {
    let mut schedule = Scheduler::new(2, 50);
    assert_eq!(schedule.poll(), Dispatch::Start(0));
    assert_eq!(schedule.poll(), Dispatch::Start(1));
    assert_eq!(schedule.poll(), Dispatch::Wait);
    assert!(schedule.complete());
    assert!(schedule.complete());
    assert_eq!(schedule.poll(), Dispatch::Done);
}

#[test]
fn no_hosts_is_done_at_once() {
    let mut schedule = Scheduler::new(0, 3);
    assert_eq!(schedule.poll(), Dispatch::Done);
    assert_eq!(schedule.in_flight(), 0);
}

#[test]
fn limit_of_zero_stalls() {
    let mut schedule = Scheduler::new(4, 0);
    assert_eq!(schedule.poll(), Dispatch::Stalled);
    assert_eq!(schedule.poll(), Dispatch::Stalled);
    assert_eq!(schedule.in_flight(), 0);
    let mut empty = Scheduler::new(0, 0);
    assert_eq!(empty.poll(), Dispatch::Stalled);
}

#[test]
fn completion_without_an_examination_is_refused() {
    let mut schedule = Scheduler::new(3, 2);
    assert!(!schedule.complete());
    assert_eq!(schedule.finished(), 0);
    assert_eq!(schedule.poll(), Dispatch::Start(0));
    assert!(schedule.complete());
    assert!(!schedule.complete());
    assert_eq!(schedule.finished(), 1);
    assert_eq!(schedule.in_flight(), 0);
}
