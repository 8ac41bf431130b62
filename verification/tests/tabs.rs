use rpa_browser::tabs::{
    close_owned_items, result_after_closing, TaskLease, TaskLeases, TaskOwnedTabs,
};

#[test]
fn task_owned_tabs_track_only_explicitly_registered_tabs() {
    let mut owned = TaskOwnedTabs::default();
    owned.register("task-main");
    owned.register("task-child");

    assert_eq!(owned.len(), 2);
    assert_eq!(owned.drain(), vec!["task-main", "task-child"]);
    assert_eq!(owned.len(), 0);
}

#[test]
fn task_cleanup_attempts_every_owned_tab_and_reports_first_error() {
    let mut closed = Vec::new();
    let result = close_owned_items(vec![1, 2, 3], |tab_id| {
        closed.push(tab_id);
        if tab_id == 2 {
            Err(anyhow::Error::msg("tab 2 close failed"))
        } else {
            Ok(())
        }
    });

    assert!(result.is_err());
    assert_eq!(result.unwrap_err().to_string(), "tab 2 close failed");
    assert_eq!(closed, vec![1, 2, 3]);
}

#[test]
fn task_cleanup_with_no_owned_tabs_is_a_noop() {
    let mut close_called = false;
    let result: Result<(), anyhow::Error> = close_owned_items(Vec::<u8>::new(), |_| {
        close_called = true;
        Ok(())
    });

    assert!(result.is_ok());
    assert!(!close_called);
}

#[test]
fn the_earliest_close_failure_is_reported() {
    let result = close_owned_items(vec![1, 2, 3, 4], |tab| if tab % 2 == 0 { Err(tab) } else { Ok(()) });

    assert_eq!(result, Err(2));
}

#[test]
fn a_failure_of_the_work_comes_before_a_failure_to_close() {
    assert_eq!(result_after_closing::<u8, &str>(Ok(1), Ok(())), Ok(1));
    assert_eq!(result_after_closing::<u8, &str>(Err("work"), Ok(())), Err("work"));
    assert_eq!(
        result_after_closing::<u8, &str>(Err("work"), Err("close")),
        Err("work")
    );
    assert_eq!(
        result_after_closing::<u8, &str>(Ok(1), Err("close")),
        Err("close")
    );
}

#[test]
fn a_task_is_counted_off_once() {
    let mut leases = TaskLeases::new();
    let mut first = leases.begin();
    let mut second = leases.begin();
    assert_eq!(leases.active, 2);
    leases.end(&mut first);
    leases.end(&mut first);
    assert_eq!(leases.active, 1);
    assert_eq!(first, TaskLease { counted_active: false });
    leases.end(&mut second);
    assert_eq!(leases.active, 0);
}

#[test]
fn a_failed_preparation_counts_the_task_off() {
    let mut leases = TaskLeases::new();
    let task = leases.begin();
    let (page, task) = leases.settle::<&str, &str>(task, Ok("page")).unwrap();
    assert_eq!(page, "page");
    assert_eq!(leases.active, 1);
    assert_eq!(leases.settle::<(), &str>(task, Err("no tab")), Err("no tab"));
    assert_eq!(leases.active, 0);
}
