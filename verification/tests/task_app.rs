use rust_learn::rust26_database::{Stats, TaskError};
use rust_learn::rust27_app::{
    apply_env_overrides, cli_from_parsed, exit_code, first_line, indent, parse_args, perform,
    render_plain, Action, AppConfig, AppError, Format, ParsedArgs, Reply, TaskService,
};

fn service() -> TaskService {
    TaskService::open_in_memory().unwrap()
}

fn text_of(reply: Reply) -> String {
    match reply {
        Reply::Text(text) => text,
        Reply::Tasks(tasks) => render_plain(&tasks),
    }
}

#[test]
fn cli_parsing_covers_subcommands_and_global_options() {
    let cli = parse_args(&["tasks", "--db", "x.sqlite", "add", "写周报"]).unwrap();
    assert_eq!(cli.options.database, Some(String::from("x.sqlite")));
    assert_eq!(cli.options.format, Format::Plain);
    assert_eq!(
        cli.action,
        Action::Add {
            title: String::from("写周报")
        }
    );

    let cli = parse_args(&["tasks", "list", "--all", "--format", "json"]).unwrap();
    assert_eq!(cli.action, Action::List { all: true });
    assert_eq!(cli.options.format, Format::Json);
}

#[test]
fn cli_reports_usage_errors() {
    assert!(matches!(parse_args(&["tasks"]), Err(AppError::Usage(_))));
    assert!(matches!(
        parse_args(&["tasks", "done", "abc"]),
        Err(AppError::Usage(_))
    ));
    assert!(matches!(
        parse_args(&["tasks", "--format", "xml", "list"]),
        Err(AppError::Usage(_))
    ));
}

#[test]
fn service_runs_the_full_flow() {
    let mut service = service();
    let first = service.add("完成综合实战").unwrap();
    let second = service.add("写测试").unwrap();

    assert!(service.complete(second).unwrap());
    assert!(!service.complete(second).unwrap(), "重复标记应返回 false");
    assert_eq!(service.list(false).unwrap().len(), 1, "默认只列未完成任务");
    assert_eq!(service.list(true).unwrap().len(), 2);
    assert!(service.delete(first).unwrap());
    assert!(!service.delete(first).unwrap());
    assert_eq!(
        service.stats().unwrap(),
        Stats {
            total: 1,
            done: 1,
            open: 0
        }
    );
}

#[test]
fn plain_rendering_handles_empty_and_unicode() {
    assert_eq!(render_plain(&[]), "（没有任务）");
    let mut service = service();
    service.add("读《Rust 程序设计语言》").unwrap();
    assert_eq!(
        render_plain(&service.list(true).unwrap()),
        "[ ] 1: 读《Rust 程序设计语言》"
    );
}

#[test]
fn exit_codes_distinguish_usage_business_and_internal() {
    assert_eq!(exit_code(&AppError::Usage(String::from("bad"))), 2);
    assert_eq!(exit_code(&AppError::Task(TaskError::EmptyTitle)), 1);
    assert_eq!(exit_code(&AppError::Internal(String::from("boom"))), 70);
}

#[test]
fn file_backed_service_keeps_data_after_reopen() {
    let dir = tempfile::tempdir().unwrap();
    let path = dir.path().join("tasks.sqlite");
    let path = path.to_str().unwrap();

    {
        let mut service = TaskService::open_file(path).unwrap();
        service.add("落盘的任务").unwrap();
    }
    let mut reopened = TaskService::open_file(path).unwrap();
    assert_eq!(reopened.database(), Some(path));
    assert_eq!(
        render_plain(&reopened.list(true).unwrap()),
        "[ ] 1: 落盘的任务"
    );
}

#[test]
fn performing_each_action_gives_its_message() {
    let mut service = service();
    let add = parse_args(&["tasks", "add", "写周报"]).unwrap();
    assert_eq!(text_of(perform(&mut service, &add).unwrap()), "已添加 #1：写周报");

    let done = parse_args(&["tasks", "done", "1"]).unwrap();
    assert_eq!(text_of(perform(&mut service, &done).unwrap()), "已完成 #1");
    assert_eq!(
        text_of(perform(&mut service, &done).unwrap()),
        "#1 不存在或已经是完成状态"
    );

    let search = parse_args(&["tasks", "search", "周报"]).unwrap();
    assert_eq!(text_of(perform(&mut service, &search).unwrap()), "[x] 1: 写周报");

    let missing = parse_args(&["tasks", "search", "找不到"]).unwrap();
    assert_eq!(
        text_of(perform(&mut service, &missing).unwrap()),
        "没有匹配 \"找不到\" 的任务"
    );

    let delete = parse_args(&["tasks", "delete", "9"]).unwrap();
    assert_eq!(text_of(perform(&mut service, &delete).unwrap()), "#9 不存在");

    let empty = parse_args(&["tasks", "add", "   "]).unwrap();
    let error = perform(&mut service, &empty).unwrap_err();
    assert_eq!(exit_code(&error), 1);
    assert_eq!(error.message(), "任务标题不能为空");
}

#[test]
fn environment_overrides_the_configuration() {
    let from_file = AppConfig {
        database: Some(String::from("tasks.sqlite")),
        format: Format::Plain,
    };
    let unchanged = apply_env_overrides(from_file.clone(), None, None).unwrap();
    assert_eq!(unchanged, from_file);

    let from_env = apply_env_overrides(from_file.clone(), Some("ci.sqlite"), Some(" JSON ")).unwrap();
    assert_eq!(from_env.database, Some(String::from("ci.sqlite")));
    assert_eq!(from_env.format, Format::Json);

    match apply_env_overrides(AppConfig::default(), None, Some("xml")) {
        Err(AppError::Usage(message)) => {
            assert_eq!(message, "TASKS_FORMAT 只支持 plain / json，收到 xml")
        }
        _ => panic!("xml must be refused"),
    }
}

#[test]
fn parsed_values_become_a_command_line() {
    let parsed = ParsedArgs {
        format: Some(String::from("json")),
        database: None,
        subcommand: Some(String::from("done")),
        title: None,
        all: false,
        id: Some(4),
        keyword: None,
    };
    let cli = cli_from_parsed(parsed).unwrap();
    assert_eq!(cli.action, Action::Done { id: 4 });
    assert_eq!(cli.options.format, Format::Json);

    let unknown = ParsedArgs {
        format: None,
        database: None,
        subcommand: Some(String::from("frobnicate")),
        title: None,
        all: false,
        id: None,
        keyword: None,
    };
    match cli_from_parsed(unknown) {
        Err(AppError::Usage(message)) => assert_eq!(message, "未知子命令：frobnicate"),
        _ => panic!("unknown subcommand must be refused"),
    }

    let missing = ParsedArgs {
        format: None,
        database: None,
        subcommand: Some(String::from("add")),
        title: None,
        all: false,
        id: None,
        keyword: None,
    };
    match cli_from_parsed(missing) {
        Err(AppError::Usage(message)) => assert_eq!(message, "缺少参数 title"),
        _ => panic!("a missing title must be refused"),
    }
}

#[test]
fn text_helpers() {
    assert_eq!(first_line("  error: bad\n\nUsage: x  "), "error: bad");
    assert_eq!(first_line("   "), "");
    assert_eq!(indent("a\nb"), "    a\n    b");
    assert_eq!(indent(""), "");
    assert_eq!(
        AppError::Usage(String::from("缺少参数 id")).message(),
        "用法错误：缺少参数 id"
    );
}

#[test]
fn clap_errors_become_one_line_usage_errors() {
    match parse_args(&["tasks", "--nope"]) {
        Err(AppError::Usage(message)) => assert!(!message.contains('\n')),
        _ => panic!("an unknown flag must be refused"),
    }
}
