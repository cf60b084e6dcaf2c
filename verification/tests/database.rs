use rusqlite::Connection;
use rust_learn::rust28_ops::insert_numbered;
use rust_learn::rust26_database::{
    add_task, add_task_with_priority, add_tasks_transactional, changed_one, complete_task,
    delete_task, init, like_pattern, list_by_priority, list_open_tasks, list_tasks, migrate,
    query_plan, rename_task, schema_version, search_tasks, set_priority, stats, stats_from_counts,
    task_from_columns, titles, validate_priority, validate_title, Stats, Task, TaskDb, TaskError,
    MIGRATION_COUNT,
};

fn memory_db() -> TaskDb {
    let mut db = TaskDb::new(Connection::open_in_memory().unwrap());
    init(&mut db).unwrap();
    db
}

#[test]
fn migrations_are_tracked_and_idempotent() {
    let mut conn = TaskDb::new(Connection::open_in_memory().unwrap());
    assert_eq!(schema_version(&mut conn).unwrap(), 0);
    assert_eq!(migrate(&mut conn).unwrap(), MIGRATION_COUNT);
    assert_eq!(schema_version(&mut conn).unwrap(), MIGRATION_COUNT as i64);
    assert_eq!(migrate(&mut conn).unwrap(), 0);
}

#[test]
fn file_backed_database_keeps_data_and_version() {
    let dir = tempfile::tempdir().unwrap();
    let path = dir.path().join("tasks.sqlite");

    {
        let mut conn = TaskDb::new(Connection::open(&path).unwrap());
        assert_eq!(migrate(&mut conn).unwrap(), MIGRATION_COUNT);
        add_task(&mut conn, "持久化").unwrap();
    }

    let mut conn = TaskDb::new(Connection::open(&path).unwrap());
    assert_eq!(migrate(&mut conn).unwrap(), 0, "重开时版本已经是最新的");
    assert_eq!(titles(&list_tasks(&mut conn).unwrap()), ["持久化"]);
}

#[test]
fn crud_roundtrip() {
    let mut conn = memory_db();
    let id = add_task(&mut conn, "demo").unwrap();
    assert_eq!(
        list_tasks(&mut conn).unwrap()[0],
        Task {
            id,
            title: "demo".into(),
            done: false,
            priority: 2,
        }
    );
    assert!(complete_task(&mut conn, id).unwrap());
    assert!(!complete_task(&mut conn, id).unwrap(), "第二次没有改到行");
    assert!(list_tasks(&mut conn).unwrap()[0].done);
    assert!(set_priority(&mut conn, id, 1).unwrap());
    assert_eq!(list_tasks(&mut conn).unwrap()[0].priority, 1);
    assert!(rename_task(&mut conn, id, "  改个名字  ").unwrap());
    assert_eq!(list_tasks(&mut conn).unwrap()[0].title, "改个名字");
    assert!(delete_task(&mut conn, id).unwrap());
    assert!(!delete_task(&mut conn, id).unwrap());
    assert!(list_tasks(&mut conn).unwrap().is_empty());
}

#[test]
fn validation_errors_never_reach_the_database() {
    let mut conn = memory_db();
    assert!(matches!(add_task(&mut conn, "   "), Err(TaskError::EmptyTitle)));
    assert!(matches!(
        add_task_with_priority(&mut conn, "x", 0),
        Err(TaskError::InvalidPriority(0))
    ));
    assert!(matches!(
        add_task_with_priority(&mut conn, "x", 4),
        Err(TaskError::InvalidPriority(4))
    ));
    assert!(matches!(
        set_priority(&mut conn, 1, 9),
        Err(TaskError::InvalidPriority(9))
    ));
    assert_eq!(
        stats(&mut conn).unwrap(),
        Stats {
            total: 0,
            done: 0,
            open: 0
        }
    );
}

#[test]
fn duplicate_titles_hit_the_unique_constraint() {
    let mut conn = memory_db();
    add_task(&mut conn, "写代码").unwrap();

    let error = add_task(&mut conn, "写代码").unwrap_err();
    assert!(error.is_constraint_violation(), "实际错误：{}", error.message());

    assert!(add_task(&mut conn, " 写代码 ")
        .unwrap_err()
        .is_constraint_violation());
    assert_eq!(list_tasks(&mut conn).unwrap().len(), 1);
}

#[test]
fn transaction_rolls_back_the_whole_batch() {
    let mut conn = memory_db();
    add_task(&mut conn, "已存在").unwrap();

    let failed = add_tasks_transactional(&mut conn, &["新任务", "已存在"]);
    assert!(failed.is_err(), "整批应当失败");
    assert_eq!(
        titles(&list_tasks(&mut conn).unwrap()),
        ["已存在"],
        "前一条插入必须一起回滚"
    );
}

#[test]
fn search_order_and_stats() {
    let mut conn = memory_db();
    let rust_book = add_task_with_priority(&mut conn, "读 Rust 书", 1).unwrap();
    let rust_code = add_task(&mut conn, "写 Rust 代码").unwrap();
    add_task_with_priority(&mut conn, "买菜", 3).unwrap();

    assert_eq!(
        titles(&search_tasks(&mut conn, "Rust").unwrap()),
        ["读 Rust 书", "写 Rust 代码"]
    );
    assert!(
        search_tasks(&mut conn, "' OR 1=1 --").unwrap().is_empty(),
        "参数绑定会把引号当普通字符"
    );
    assert_eq!(titles(&list_by_priority(&mut conn, 3).unwrap()), ["买菜"]);
    assert_eq!(
        titles(&list_open_tasks(&mut conn).unwrap()),
        ["读 Rust 书", "写 Rust 代码", "买菜"]
    );

    complete_task(&mut conn, rust_book).unwrap();
    complete_task(&mut conn, rust_code).unwrap();
    assert_eq!(
        stats(&mut conn).unwrap(),
        Stats {
            total: 3,
            done: 2,
            open: 1
        }
    );
}

#[test]
fn query_plan_shows_index_usage() {
    let mut conn = memory_db();
    let indexed = query_plan(&mut conn, "SELECT id FROM tasks WHERE done = 0").unwrap();
    assert!(
        indexed.iter().any(|line| line.contains("idx_tasks_done")),
        "done = 0 应该走索引，实际计划：{indexed:?}"
    );

    let scanned = query_plan(&mut conn, "SELECT id FROM tasks WHERE title LIKE '%Rust%'").unwrap();
    assert!(
        scanned.iter().any(|line| line.contains("SCAN")),
        "前缀通配符的 LIKE 只能全表扫描，实际计划：{scanned:?}"
    );
}

#[test]
fn batch_insert_and_loop_insert_write_the_same_rows() {
    let count: usize = 20;

    let mut looped = TaskDb::new(Connection::open_in_memory().unwrap());
    init(&mut looped).unwrap();
    for index in 0..count {
        add_task(&mut looped, &format!("逐条-{index}")).unwrap();
    }

    let mut batched = TaskDb::new(Connection::open_in_memory().unwrap());
    init(&mut batched).unwrap();
    let titles: Vec<String> = (0..count).map(|index| format!("批量-{index}")).collect();
    let refs: Vec<&str> = titles.iter().map(String::as_str).collect();
    add_tasks_transactional(&mut batched, &refs).unwrap();

    let looped_total = stats(&mut looped).unwrap().total;
    let batched_total = stats(&mut batched).unwrap().total;
    assert_eq!(looped_total, count as i64);
    assert_eq!(batched_total, count as i64);
}

#[test]
fn validators_trim_and_bound() {
    assert_eq!(validate_title("  标题 \n").unwrap(), "标题");
    assert!(matches!(validate_title("\t \n"), Err(TaskError::EmptyTitle)));
    assert_eq!(validate_priority(1).unwrap(), 1);
    assert_eq!(validate_priority(3).unwrap(), 3);
    assert!(matches!(validate_priority(-1), Err(TaskError::InvalidPriority(-1))));
}

#[test]
fn row_mapping_and_counts() {
    let task = task_from_columns(7, String::from("t"), 5, 3);
    assert!(task.done);
    assert!(!task_from_columns(7, String::from("t"), 0, 3).done);
    assert_eq!(
        stats_from_counts(5, 2),
        Stats {
            total: 5,
            done: 2,
            open: 3
        }
    );
    assert!(matches!(changed_one(Ok(1)), Ok(true)));
    assert!(matches!(changed_one(Ok(0)), Ok(false)));
    assert!(matches!(changed_one(Ok(2)), Ok(false)));
    assert_eq!(like_pattern("Rust"), "%Rust%");
}

#[test]
fn error_messages() {
    assert_eq!(TaskError::EmptyTitle.message(), "任务标题不能为空");
    assert_eq!(TaskError::InvalidPriority(-4).message(), "优先级 -4 不在 1..=3 之间");
    let mut conn = memory_db();
    add_task(&mut conn, "a").unwrap();
    let error = add_task(&mut conn, "a").unwrap_err();
    assert!(error.message().starts_with("数据库错误："));
}

#[test]
fn transaction_commits_all_titles_in_order() {
    let mut conn = memory_db();
    let ids = add_tasks_transactional(&mut conn, &["one", "two", "three"]).unwrap();
    assert_eq!(ids.len(), 3);
    assert!(ids[0] < ids[1] && ids[1] < ids[2]);
    assert_eq!(titles(&list_tasks(&mut conn).unwrap()), ["one", "two", "three"]);
    assert!(matches!(
        add_tasks_transactional(&mut conn, &["four", "  "]),
        Err(TaskError::EmptyTitle)
    ));
    assert_eq!(list_tasks(&mut conn).unwrap().len(), 3);
}

#[test]
fn inserting_zero_numbered_tasks_succeeds_and_adds_nothing() {
    let mut conn = memory_db();
    assert!(insert_numbered(&mut conn, "任务-", 0).is_ok());
    assert_eq!(list_tasks(&mut conn).unwrap().len(), 0);
    let totals = stats(&mut conn).unwrap();
    assert_eq!(totals.open, totals.total - totals.done);
}

#[test]
fn sqlite_errors_keep_their_kind_and_text() {
    let refused = TaskError::Sqlite { constraint: true, text: String::from("UNIQUE constraint failed: tasks.title") };
    assert!(refused.is_constraint_violation());
    assert_eq!(refused.message(), "数据库错误：UNIQUE constraint failed: tasks.title");
    let other = TaskError::Sqlite { constraint: false, text: String::from("disk I/O error") };
    assert!(!other.is_constraint_violation());
    assert!(!TaskError::EmptyTitle.is_constraint_violation());
}
