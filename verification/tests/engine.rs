use schema_migrations::registry::Direction;
use schema_migrations::registry::Registry;
use schema_migrations::registry::Step;
use schema_migrations::registry::get_migrations;
use schema_migrations::runner::MigrationError;
use schema_migrations::runner::init;
use schema_migrations::runner::migrate;
use schema_migrations::store::Statement;
use schema_migrations::store::Store;
use schema_migrations::store::StoreError;
use schema_migrations::store::Table;
use schema_migrations::store::Value;

const REPORT_PROMPT_DEFAULT: &str =
    "你是一位技术周报编辑专家，擅长将开发者的Git提交记录转化为结构化、专业的工作周报。";

const USER_PROMPT_DEFAULT: &str = "请基于以下Git提交记录，生成一份专业的技术周报：
1. 按项目分类整理内容
2. 合并相似的提交内容
3. 使用技术术语准确描述工作内容
4. 突出重要的功能开发和问题修复
5. 保持简洁专业的语言风格";

fn s(x: &str) -> String {
    x.to_string()
}

fn table<'a>(store: &'a Store, name: &str) -> &'a Table {
    store
        .tables
        .iter()
        .find(|t| t.name == name)
        .unwrap_or_else(|| panic!("table {} not found", name))
}

fn has_table(store: &Store, name: &str) -> bool {
    store.tables.iter().any(|t| t.name == name)
}

fn col(t: &Table, name: &str) -> usize {
    t.cols
        .iter()
        .position(|c| c == name)
        .unwrap_or_else(|| panic!("column {} not found", name))
}

fn first_three() -> Registry {
    let mut steps = get_migrations();
    steps.truncate(3);
    Registry::new(steps).unwrap()
}

fn full() -> Registry {
    Registry::new(get_migrations()).unwrap()
}

fn step(version: i64, script: Vec<Statement>) -> Step {
    Step {
        version,
        description: format!("step {}", version),
        direction: Direction::Up,
        script,
    }
}

#[test]
fn fresh_store_reaches_ledger_three() {
    let store = init(None, &first_three()).unwrap();
    assert_eq!(store.ledger, 3);
    assert!(has_table(&store, "weekly_reports"));
    assert!(has_table(&store, "project_configs"));
    assert!(has_table(&store, "settings"));
    assert_eq!(store.tables.len(), 3);
    let settings = table(&store, "settings");
    assert_eq!(settings.cols, vec![s("authors"), s("api_key")]);
    assert_eq!(settings.rows, vec![vec![Value::Null, Value::Null]]);
}

#[test]
fn resume_from_three_applies_exactly_four_and_five() {
    let mut store = init(None, &first_three()).unwrap();
    // Normal use between launches: user data appears in the tables.
    store
        .tables
        .iter_mut()
        .find(|t| t.name == "weekly_reports")
        .unwrap()
        .rows
        .push(vec![
            Value::Int(1),
            Value::Text(s("week one")),
            Value::Null,
            Value::Null,
        ]);
    let settings_idx = store.tables.iter().position(|t| t.name == "settings").unwrap();
    store.tables[settings_idx].rows[0][0] = Value::Text(s("me"));
    let before_reports = table(&store, "weekly_reports").rows.clone();

    let applied = migrate(&mut store, &full()).unwrap();
    assert_eq!(applied, 2);
    assert_eq!(store.ledger, 5);
    let settings = table(&store, "settings");
    let rp = col(settings, "report_prompt");
    let up = col(settings, "user_prompt");
    assert_eq!(settings.rows.len(), 1);
    assert_eq!(settings.rows[0][rp], Value::Text(s(REPORT_PROMPT_DEFAULT)));
    assert_eq!(settings.rows[0][up], Value::Text(s(USER_PROMPT_DEFAULT)));
    // Pre-existing values elsewhere are untouched.
    assert_eq!(settings.rows[0][0], Value::Text(s("me")));
    assert_eq!(table(&store, "weekly_reports").rows, before_reports);
}

#[test]
fn malformed_step_four_fails_and_rolls_back() {
    let mut store = init(None, &first_three()).unwrap();
    // A step 4 whose script fails midway: its first statement succeeds,
    // its second adds the same column again.
    let mut steps = get_migrations();
    steps.truncate(3);
    steps.push(step(
        4,
        vec![
            Statement::AddColumn { table: s("settings"), col: s("report_prompt") },
            Statement::AddColumn { table: s("settings"), col: s("report_prompt") },
        ],
    ));
    steps.push(get_migrations().into_iter().nth(4).unwrap());
    let registry = Registry::new(steps).unwrap();

    let err = migrate(&mut store, &registry).unwrap_err();
    assert_eq!(
        err,
        MigrationError::ExecutionFailed { version: 4, cause: StoreError::DuplicateColumn }
    );
    assert_eq!(store.ledger, 3);
    // No effect of the failing step is visible, and step 5 never ran.
    let settings = table(&store, "settings");
    assert!(!settings.cols.iter().any(|c| c == "report_prompt"));
    assert!(!settings.cols.iter().any(|c| c == "user_prompt"));
}

#[test]
fn migrate_is_idempotent() {
    let mut store = init(None, &full()).unwrap();
    assert_eq!(store.ledger, 5);
    let snapshot = store.clone();
    let applied = migrate(&mut store, &full()).unwrap();
    assert_eq!(applied, 0);
    assert_eq!(store, snapshot);
}

#[test]
fn failed_migrate_is_idempotent_too() {
    let registry = Registry::new(vec![
        step(1, vec![Statement::CreateTableIfNotExists { name: s("a"), cols: vec![s("x")] }]),
        step(2, vec![Statement::AddColumn { table: s("missing"), col: s("x") }]),
    ])
    .unwrap();
    let mut store = Store::new_empty();
    let first = migrate(&mut store, &registry).unwrap_err();
    let snapshot = store.clone();
    let second = migrate(&mut store, &registry).unwrap_err();
    assert_eq!(first, second);
    assert_eq!(store, snapshot);
    assert_eq!(store.ledger, 1);
}

#[test]
fn steps_apply_in_ascending_order() {
    // Each step creates its own table; tables appear in application order,
    // so the store records the order the scripts ran in.
    let registry = Registry::new(vec![
        step(1, vec![Statement::CreateTableIfNotExists { name: s("alpha"), cols: vec![s("a")] }]),
        step(2, vec![Statement::CreateTableIfNotExists { name: s("beta"), cols: vec![s("b")] }]),
        step(3, vec![Statement::CreateTableIfNotExists { name: s("gamma"), cols: vec![s("c")] }]),
    ])
    .unwrap();
    let store = init(None, &registry).unwrap();
    let names: Vec<&str> = store.tables.iter().map(|t| t.name.as_str()).collect();
    assert_eq!(names, vec!["alpha", "beta", "gamma"]);
    assert_eq!(store.ledger, 3);
}

#[test]
fn partial_store_resumes_without_rerunning_earlier_steps() {
    let mut two = get_migrations();
    two.truncate(2);
    let mut store = init(None, &Registry::new(two).unwrap()).unwrap();
    assert_eq!(store.ledger, 2);
    // A marker left by normal use: re-running step 1 would not remove it,
    // but this shows the table is the same one, not a recreated one.
    store
        .tables
        .iter_mut()
        .find(|t| t.name == "weekly_reports")
        .unwrap()
        .rows
        .push(vec![Value::Int(7), Value::Text(s("marker")), Value::Null, Value::Null]);

    let applied = migrate(&mut store, &full()).unwrap();
    assert_eq!(applied, 3);
    assert_eq!(store.ledger, 5);
    let reports = table(&store, "weekly_reports");
    assert_eq!(reports.rows.len(), 1);
    assert_eq!(reports.rows[0][1], Value::Text(s("marker")));
}

#[test]
fn backfill_never_overwrites_user_set_values() {
    // A settings table that already has the column, one row with a value
    // the user set and one still null; re-running the backfill logic fills
    // only the null.
    let store_in = Store {
        tables: vec![Table {
            name: s("settings"),
            cols: vec![s("authors"), s("api_key"), s("report_prompt")],
            rows: vec![
                vec![Value::Null, Value::Null, Value::Text(s("my own prompt"))],
                vec![Value::Null, Value::Null, Value::Null],
            ],
        }],
        ledger: 3,
    };
    let registry = Registry::new(vec![step(
        4,
        vec![Statement::BackfillWhereNull {
            table: s("settings"),
            col: s("report_prompt"),
            value: Value::Text(s(REPORT_PROMPT_DEFAULT)),
        }],
    )])
    .unwrap();
    let store = init(Some(store_in), &registry).unwrap();
    let settings = table(&store, "settings");
    assert_eq!(settings.rows[0][2], Value::Text(s("my own prompt")));
    assert_eq!(settings.rows[1][2], Value::Text(s(REPORT_PROMPT_DEFAULT)));
}

#[test]
fn missing_table_reports_no_such_table() {
    let registry = Registry::new(vec![step(
        1,
        vec![Statement::AddColumn { table: s("absent"), col: s("x") }],
    )])
    .unwrap();
    let err = init(None, &registry).unwrap_err();
    assert_eq!(err, MigrationError::ExecutionFailed { version: 1, cause: StoreError::NoSuchTable });
}

#[test]
fn missing_column_reports_no_such_column_and_step_rolls_back() {
    let registry = Registry::new(vec![step(
        1,
        vec![
            Statement::CreateTableIfNotExists { name: s("t"), cols: vec![s("a")] },
            Statement::BackfillWhereNull {
                table: s("t"),
                col: s("b"),
                value: Value::Int(1),
            },
        ],
    )])
    .unwrap();
    let mut store = Store::new_empty();
    let err = migrate(&mut store, &registry).unwrap_err();
    assert_eq!(
        err,
        MigrationError::ExecutionFailed { version: 1, cause: StoreError::NoSuchColumn }
    );
    // The whole step rolled back: even its successful first statement.
    assert!(!has_table(&store, "t"));
    assert_eq!(store.ledger, 0);
    assert_eq!(store, Store::new_empty());
}

#[test]
fn store_unavailable_is_a_distinct_error() {
    // The engine itself never produces this variant; a host reports it when
    // the backing file cannot be opened, before migration begins.
    let unavailable = MigrationError::StoreUnavailable;
    assert_ne!(
        unavailable,
        MigrationError::ExecutionFailed { version: 1, cause: StoreError::NoSuchTable }
    );
    assert_eq!(unavailable, MigrationError::StoreUnavailable);
}

#[test]
fn registry_rejects_duplicate_versions() {
    let steps = vec![step(1, vec![]), step(1, vec![])];
    assert!(Registry::new(steps).is_none());
}

#[test]
fn registry_rejects_out_of_order_versions() {
    let steps = vec![step(2, vec![]), step(1, vec![])];
    assert!(Registry::new(steps).is_none());
}

#[test]
fn registry_rejects_non_positive_versions() {
    assert!(Registry::new(vec![step(0, vec![])]).is_none());
    assert!(Registry::new(vec![step(-3, vec![])]).is_none());
}

#[test]
fn registry_lists_steps_in_catalog_order() {
    let registry = full();
    let versions: Vec<i64> = registry.list_steps().iter().map(|st| st.version).collect();
    assert_eq!(versions, vec![1, 2, 3, 4, 5]);
}

#[test]
fn published_catalog_matches_the_applications_schema() {
    let steps = get_migrations();
    assert_eq!(steps.len(), 5);
    let descriptions: Vec<&str> = steps.iter().map(|st| st.description.as_str()).collect();
    assert_eq!(
        descriptions,
        vec![
            "Create weekly reports table",
            "Create project config table",
            "Create settings table",
            "Add report_prompt field to settings table",
            "Add user_prompt field to settings table",
        ]
    );
    assert!(steps.iter().all(|st| st.direction == Direction::Up));
    let script_lens: Vec<usize> = steps.iter().map(|st| st.script.len()).collect();
    assert_eq!(script_lens, vec![1, 1, 2, 2, 2]);
    assert_eq!(
        steps[3].script[0],
        Statement::AddColumn { table: s("settings"), col: s("report_prompt") }
    );
    assert_eq!(
        steps[3].script[1],
        Statement::BackfillWhereNull {
            table: s("settings"),
            col: s("report_prompt"),
            value: Value::Text(s(REPORT_PROMPT_DEFAULT)),
        }
    );
    assert_eq!(
        steps[4].script[1],
        Statement::BackfillWhereNull {
            table: s("settings"),
            col: s("user_prompt"),
            value: Value::Text(s(USER_PROMPT_DEFAULT)),
        }
    );
}

#[test]
fn empty_registry_is_a_no_op() {
    let registry = Registry::new(Vec::new()).unwrap();
    let mut store = Store::new_empty();
    let applied = migrate(&mut store, &registry).unwrap();
    assert_eq!(applied, 0);
    assert_eq!(store, Store::new_empty());
}

#[test]
fn create_table_if_not_exists_keeps_an_existing_table() {
    let store_in = Store {
        tables: vec![Table {
            name: s("settings"),
            cols: vec![s("authors"), s("api_key")],
            rows: vec![vec![Value::Text(s("kept")), Value::Null]],
        }],
        ledger: 0,
    };
    let registry = Registry::new(vec![step(
        1,
        vec![Statement::CreateTableIfNotExists {
            name: s("settings"),
            cols: vec![s("authors"), s("api_key")],
        }],
    )])
    .unwrap();
    let store = init(Some(store_in), &registry).unwrap();
    let settings = table(&store, "settings");
    assert_eq!(settings.rows, vec![vec![Value::Text(s("kept")), Value::Null]]);
}

#[test]
fn default_row_is_only_inserted_when_the_table_is_empty() {
    let store_in = Store {
        tables: vec![Table {
            name: s("settings"),
            cols: vec![s("authors"), s("api_key")],
            rows: vec![vec![Value::Text(s("kept")), Value::Null]],
        }],
        ledger: 0,
    };
    let registry = Registry::new(vec![step(
        1,
        vec![Statement::InsertDefaultRowIfEmpty { table: s("settings") }],
    )])
    .unwrap();
    let store = init(Some(store_in), &registry).unwrap();
    let settings = table(&store, "settings");
    assert_eq!(settings.rows.len(), 1);
    assert_eq!(settings.rows[0][0], Value::Text(s("kept")));
}

#[test]
fn failure_reports_the_first_failing_version() {
    // Steps 1 and 2 commit; step 3 fails; step 4 is never attempted.
    let registry = Registry::new(vec![
        step(1, vec![Statement::CreateTableIfNotExists { name: s("a"), cols: vec![s("x")] }]),
        step(2, vec![Statement::CreateTableIfNotExists { name: s("b"), cols: vec![s("x")] }]),
        step(3, vec![Statement::AddColumn { table: s("missing"), col: s("x") }]),
        step(4, vec![Statement::CreateTableIfNotExists { name: s("c"), cols: vec![s("x")] }]),
    ])
    .unwrap();
    let mut store = Store::new_empty();
    let err = migrate(&mut store, &registry).unwrap_err();
    assert_eq!(err, MigrationError::ExecutionFailed { version: 3, cause: StoreError::NoSuchTable });
    assert_eq!(store.ledger, 2);
    assert!(has_table(&store, "a"));
    assert!(has_table(&store, "b"));
    assert!(!has_table(&store, "c"));
}
