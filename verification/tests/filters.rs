use todo_tasks::repo::TaskRepository;
use todo_tasks::task::{TaskInput, UpdateTaskInput, UserId};

// One instant used throughout: 259300 seconds after the epoch, i.e. 100
// seconds into the fourth UTC day. The day runs from second 259200 to
// second 345599, both included.
const NOW_NS: u64 = 259_300_000_000_000;
const START_OF_DAY: u64 = 259_200;
const END_OF_DAY: u64 = 345_599;
const NOW_S: u64 = 259_300;

fn due(title: &str, due_date: Option<u64>) -> TaskInput {
    TaskInput {
        title: title.to_string(),
        is_important: None,
        due_date,
        reminder: None,
        repeat: None,
        assigned_to: None,
    }
}

#[test]
fn today_includes_both_day_boundaries() {
    let mut repo = TaskRepository::new();
    let at_start = repo.add_task(due("at start", Some(START_OF_DAY)));
    let at_end = repo.add_task(due("at end", Some(END_OF_DAY)));
    let yesterday = repo.add_task(due("yesterday", Some(START_OF_DAY - 1)));
    let tomorrow = repo.add_task(due("tomorrow", Some(END_OF_DAY + 1)));
    let undated = repo.add_task(due("undated", None));

    let today: Vec<u64> = repo.get_today_tasks(NOW_NS).iter().map(|t| t.id).collect();
    assert_eq!(today, vec![at_start, at_end]);
    assert!(!today.contains(&yesterday));
    assert!(!today.contains(&tomorrow));
    assert!(!today.contains(&undated));
    assert_eq!(repo.count_today_tasks(NOW_NS), 2);
}

#[test]
fn planned_is_strictly_future() {
    let mut repo = TaskRepository::new();
    let _past = repo.add_task(due("past", Some(NOW_S - 1)));
    let _at_now = repo.add_task(due("at now", Some(NOW_S)));
    let next_second = repo.add_task(due("next second", Some(NOW_S + 1)));
    let far = repo.add_task(due("far", Some(END_OF_DAY + 100)));
    let _undated = repo.add_task(due("undated", None));

    let planned: Vec<u64> = repo.get_planned_tasks(NOW_NS).iter().map(|t| t.id).collect();
    assert_eq!(planned, vec![next_second, far]);
}

#[test]
fn scenario_start_of_day_and_yesterday() {
    let mut repo = TaskRepository::new();
    let at_start = repo.add_task(due("at start", Some(START_OF_DAY)));
    let later_today = repo.add_task(due("later today", Some(NOW_S + 1)));
    let yesterday = repo.add_task(due("yesterday", Some(START_OF_DAY - 10)));

    let today: Vec<u64> = repo.get_today_tasks(NOW_NS).iter().map(|t| t.id).collect();
    let planned: Vec<u64> = repo.get_planned_tasks(NOW_NS).iter().map(|t| t.id).collect();

    // Due exactly at the start of the day: in "today"; not in "planned",
    // since the start of the day is not strictly after now.
    assert!(today.contains(&at_start));
    assert!(!planned.contains(&at_start));
    // Due later today and strictly future: the two views overlap.
    assert!(today.contains(&later_today));
    assert!(planned.contains(&later_today));
    // Due yesterday: in neither.
    assert!(!today.contains(&yesterday));
    assert!(!planned.contains(&yesterday));
}

#[test]
fn clearing_due_date_removes_from_today_and_planned() {
    let mut repo = TaskRepository::new();
    let id = repo.add_task(due("soon", Some(NOW_S + 1)));
    assert_eq!(repo.get_today_tasks(NOW_NS).len(), 1);
    assert_eq!(repo.get_planned_tasks(NOW_NS).len(), 1);

    let mut clear = UpdateTaskInput::empty();
    clear.due_date = Some(None);
    assert_eq!(repo.update_task(id, clear), Ok(()));

    assert_eq!(repo.get_today_tasks(NOW_NS).len(), 0);
    assert_eq!(repo.get_planned_tasks(NOW_NS).len(), 0);
    assert_eq!(repo.count_today_tasks(NOW_NS), 0);
}

#[test]
fn count_today_always_matches_get_today() {
    let mut repo = TaskRepository::new();
    assert_eq!(repo.count_today_tasks(NOW_NS) as usize, repo.get_today_tasks(NOW_NS).len());
    let a = repo.add_task(due("a", Some(START_OF_DAY)));
    assert_eq!(repo.count_today_tasks(NOW_NS) as usize, repo.get_today_tasks(NOW_NS).len());
    let _b = repo.add_task(due("b", Some(END_OF_DAY)));
    assert_eq!(repo.count_today_tasks(NOW_NS) as usize, repo.get_today_tasks(NOW_NS).len());
    let _c = repo.add_task(due("c", None));
    assert_eq!(repo.count_today_tasks(NOW_NS) as usize, repo.get_today_tasks(NOW_NS).len());
    assert_eq!(repo.delete_task(a), Ok(()));
    assert_eq!(repo.count_today_tasks(NOW_NS) as usize, repo.get_today_tasks(NOW_NS).len());
    assert_eq!(repo.count_today_tasks(NOW_NS), 1);
}

#[test]
fn active_and_completed_partition_the_store() {
    let mut repo = TaskRepository::new();
    let a = repo.add_task(due("a", None));
    let b = repo.add_task(due("b", None));
    let c = repo.add_task(due("c", None));
    let mut done = UpdateTaskInput::empty();
    done.is_completed = Some(true);
    assert_eq!(repo.update_task(b, done), Ok(()));

    let active: Vec<u64> = repo.get_active_tasks().iter().map(|t| t.id).collect();
    let completed: Vec<u64> = repo.get_completed_tasks().iter().map(|t| t.id).collect();
    assert_eq!(active, vec![a, c]);
    assert_eq!(completed, vec![b]);
    assert_eq!(active.len() + completed.len(), repo.get_all_tasks().len());
}

#[test]
fn assigned_filter_compares_the_caller_identity() {
    let alice = || UserId::new(vec![0xA, 1]);
    let bob = || UserId::new(vec![0xB, 2]);
    let mut repo = TaskRepository::new();
    let for_alice = repo.add_task(TaskInput {
        title: "for alice".to_string(),
        is_important: None,
        due_date: None,
        reminder: None,
        repeat: None,
        assigned_to: Some(alice()),
    });
    let _for_bob = repo.add_task(TaskInput {
        title: "for bob".to_string(),
        is_important: None,
        due_date: None,
        reminder: None,
        repeat: None,
        assigned_to: Some(bob()),
    });
    let _unassigned = repo.add_task(due("unassigned", None));

    let caller = alice();
    let mine: Vec<u64> = repo.get_assigned_tasks(&caller).iter().map(|t| t.id).collect();
    assert_eq!(mine, vec![for_alice]);

    let nobody = UserId::new(vec![]);
    assert!(repo.get_assigned_tasks(&nobody).is_empty());
}

#[test]
fn user_id_matches_is_byte_equality() {
    let a = UserId::new(vec![1, 2, 3]);
    let b = UserId::new(vec![1, 2, 3]);
    let c = UserId::new(vec![1, 2, 4]);
    let d = UserId::new(vec![1, 2]);
    assert!(a.matches(&b));
    assert!(!a.matches(&c));
    assert!(!a.matches(&d));
}
