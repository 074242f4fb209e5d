use schema_migrate::applier::{ApplyError, ApplyRun};
use schema_migrate::apply_script::{ApplyScriptCommand, ApplyScriptInput, ApplyScriptOutput};
use schema_migrate::classifier::{classify, Risk, RowCount, ValueCount};
use schema_migrate::dialect::{enum_type_name, render_create_enum, render_enum_column_type, Dialect};
use schema_migrate::differ::diff;
use schema_migrate::logger::{EventFilter, LogFormat, Logger};
use schema_migrate::orderer::order;
use schema_migrate::push::plan_push;
use schema_migrate::references::PlanningError;
use schema_migrate::postgres::render_postgres;
use schema_migrate::schema::{Column, ColumnType, EnumDef, ForeignKey, Index, ReferentialAction, Schema, Table};
use schema_migrate::step::Step;
use schema_migrate::text::push_decimal;

fn s(x: &str) -> String {
    x.to_string()
}

fn column(name: &str, tpe: ColumnType, nullable: bool) -> Column {
    Column { name: s(name), tpe, nullable, default: None, autoincrement: false }
}

fn table(name: &str, columns: Vec<Column>) -> Table {
    Table { name: s(name), columns, indexes: vec![], foreign_keys: vec![], primary_key: vec![s("id")] }
}

fn cat_mood(variants: &[&str]) -> EnumDef {
    EnumDef { name: s("CatMood"), variants: variants.iter().map(|v| s(v)).collect() }
}

fn basic_enum_schema() -> Schema {
    Schema {
        tables: vec![table(
            "Cat",
            vec![
                column("id", ColumnType::Int, false),
                column("mood", ColumnType::Enum(s("CatMood")), false),
            ],
        )],
        enums: vec![cat_mood(&["HAPPY", "HUNGRY"])],
    }
}

fn rows(table: &str, n: u64) -> Vec<RowCount> {
    vec![RowCount { table: s(table), rows: n }]
}

#[test]
fn diff_of_a_schema_with_itself_is_empty() {
    let a = basic_enum_schema();
    let b = basic_enum_schema();
    assert!(diff(&a, &b).is_empty());
}

#[test]
fn second_push_is_a_noop() {
    let desired = basic_enum_schema();
    let first = plan_push(&Schema::empty(), &desired, &vec![], &vec![], false).unwrap();
    assert!(first.applied);
    assert_eq!(first.to_execute.len(), 2);
    assert!(matches!(first.to_execute[0], Step::CreateEnum(_)));
    assert!(matches!(first.to_execute[1], Step::CreateTable(_)));
    let second = plan_push(&basic_enum_schema(), &desired, &vec![], &vec![], false).unwrap();
    assert!(second.steps.is_empty());
    assert!(second.warnings.is_empty());
    assert!(second.applied);
    assert!(second.to_execute.is_empty());
}

#[test]
fn referenced_table_is_created_before_the_foreign_key() {
    let mut cat = table("Cat", vec![column("id", ColumnType::Int, false), column("moodId", ColumnType::Int, false)]);
    cat.foreign_keys.push(ForeignKey {
        columns: vec![s("moodId")],
        referenced_table: s("CatMood"),
        referenced_columns: vec![s("id")],
        on_delete: ReferentialAction::Cascade,
        on_update: ReferentialAction::Cascade,
    });
    let mood = table("CatMood", vec![column("id", ColumnType::Int, false)]);
    let desired = Schema { tables: vec![cat, mood], enums: vec![] };
    let plan = order(&diff(&Schema::empty(), &desired));
    let created = plan
        .iter()
        .position(|st| matches!(st, Step::CreateTable(t) if t.name == "CatMood"))
        .unwrap();
    let fk = plan.iter().position(|st| matches!(st, Step::AddForeignKey { .. })).unwrap();
    assert!(created < fk);
    assert_eq!(plan.len(), 3);
}

#[test]
fn foreign_keys_are_dropped_before_their_table() {
    let mut cat = table("Cat", vec![column("id", ColumnType::Int, false), column("moodId", ColumnType::Int, false)]);
    cat.foreign_keys.push(ForeignKey {
        columns: vec![s("moodId")],
        referenced_table: s("CatMood"),
        referenced_columns: vec![s("id")],
        on_delete: ReferentialAction::NoAction,
        on_update: ReferentialAction::NoAction,
    });
    let mood = table("CatMood", vec![column("id", ColumnType::Int, false)]);
    let current = Schema { tables: vec![cat, mood], enums: vec![] };
    let desired = Schema {
        tables: vec![table("Cat", vec![column("id", ColumnType::Int, false), column("moodId", ColumnType::Int, false)])],
        enums: vec![],
    };
    let plan = order(&diff(&current, &desired));
    assert_eq!(plan.len(), 2);
    assert!(matches!(plan[0], Step::DropForeignKey { .. }));
    assert!(matches!(&plan[1], Step::DropTable(t) if t == "CatMood"));
}

#[test]
fn dropping_a_non_empty_table_is_blocked_without_force() {
    let current = basic_enum_schema();
    let desired = Schema { tables: vec![], enums: vec![cat_mood(&["HAPPY", "HUNGRY"])] };
    let plan = plan_push(&current, &desired, &rows("Cat", 1), &vec![], false).unwrap();
    assert!(!plan.applied);
    assert!(plan.to_execute.is_empty());
    assert_eq!(plan.warnings.len(), 1);
    assert_eq!(plan.warnings[0].message, "You are about to drop the `Cat` table, which is not empty (1 rows).");
    assert_eq!(plan.warnings[0].severity, Risk::Warning);

    let forced = plan_push(&current, &desired, &rows("Cat", 1), &vec![], true).unwrap();
    assert!(forced.applied);
    assert_eq!(forced.warnings.len(), 1);
    assert_eq!(forced.warnings[0].message, "You are about to drop the `Cat` table, which is not empty (1 rows).");
    assert_eq!(forced.to_execute.len(), 1);
    assert!(matches!(&forced.to_execute[0], Step::DropTable(t) if t == "Cat"));
}

#[test]
fn dropping_an_empty_table_is_safe() {
    let current = basic_enum_schema();
    let desired = Schema { tables: vec![], enums: vec![cat_mood(&["HAPPY", "HUNGRY"])] };
    let plan = plan_push(&current, &desired, &rows("Cat", 0), &vec![], false).unwrap();
    assert!(plan.applied);
    assert!(plan.warnings.is_empty());
    assert_eq!(plan.risks, vec![Risk::Safe]);
}

#[test]
fn unknown_row_count_is_treated_as_a_warning() {
    let current = basic_enum_schema();
    let desired = Schema { tables: vec![], enums: vec![cat_mood(&["HAPPY", "HUNGRY"])] };
    let plan = plan_push(&current, &desired, &vec![], &vec![], false).unwrap();
    assert!(!plan.applied);
    assert_eq!(
        plan.warnings[0].message,
        "You are about to drop the `Cat` table. If the table is not empty, all the data it contains will be lost."
    );
}

#[test]
fn variants_can_be_added_to_an_existing_enum() {
    let mut current = basic_enum_schema();
    current.enums = vec![cat_mood(&["HUNGRY"])];
    let mut desired = basic_enum_schema();
    desired.enums = vec![cat_mood(&["HUNGRY", "HAPPY", "JOYJOY"])];
    let plan = plan_push(&current, &desired, &rows("Cat", 3), &vec![], false).unwrap();
    assert!(plan.applied);
    assert!(plan.warnings.is_empty());
    assert_eq!(plan.steps.len(), 2);
    for st in plan.steps.iter() {
        assert!(matches!(st, Step::AddEnumVariant { .. }));
    }
    assert!(matches!(&plan.steps[0], Step::AddEnumVariant { variant, .. } if variant == "HAPPY"));
    assert!(matches!(&plan.steps[1], Step::AddEnumVariant { variant, .. } if variant == "JOYJOY"));
    assert_eq!(plan.risks, vec![Risk::Safe, Risk::Safe]);
}

#[test]
fn variants_can_be_removed_from_an_existing_enum() {
    let current = basic_enum_schema();
    let mut desired = basic_enum_schema();
    desired.enums = vec![cat_mood(&["HUNGRY"])];
    let blocked = plan_push(&current, &desired, &rows("Cat", 0), &vec![], false).unwrap();
    assert!(!blocked.applied);
    let plan = plan_push(&current, &desired, &rows("Cat", 0), &vec![], true).unwrap();
    assert!(plan.applied);
    assert_eq!(plan.steps.len(), 1);
    assert!(matches!(&plan.steps[0], Step::RemoveEnumVariant { variant, .. } if variant == "HAPPY"));
    assert_eq!(plan.warnings.len(), 1);
    assert_eq!(
        plan.warnings[0].message,
        "The migration will remove the values [HAPPY] on the enum `CatMood`. If these variants are still used in the database, the migration will fail."
    );
}

#[test]
fn enum_renders_natively_or_as_text_by_dialect() {
    let e = cat_mood(&["HAPPY", "HUNGRY"]);
    assert_eq!(
        render_create_enum(Dialect::Postgres, &e).unwrap(),
        "CREATE TYPE \"CatMood\" AS ENUM ('HAPPY', 'HUNGRY')"
    );
    assert_eq!(render_enum_column_type(Dialect::Postgres, &e), "\"CatMood\"");
    assert_eq!(render_enum_column_type(Dialect::MySql, &e), "ENUM('HAPPY', 'HUNGRY')");
    assert!(render_create_enum(Dialect::Sqlite, &e).is_none());
    assert_eq!(render_enum_column_type(Dialect::Sqlite, &e), "TEXT");
    assert_eq!(render_enum_column_type(Dialect::SqlServer, &e), "NVARCHAR(1000)");
    assert!(Dialect::Postgres.supports_native_enums());
    assert!(!Dialect::Sqlite.supports_native_enums());
    assert_eq!(enum_type_name(Dialect::MySql, &s("CatMood"), &s("Cat"), &s("mood")), "Cat_mood");
    assert_eq!(enum_type_name(Dialect::Postgres, &s("CatMood"), &s("Cat"), &s("mood")), "CatMood");
}

#[test]
fn string_field_to_enum_field_needs_force() {
    let current = Schema {
        tables: vec![table(
            "Cat",
            vec![column("id", ColumnType::Int, false), column("mood", ColumnType::VarChar(191), true)],
        )],
        enums: vec![],
    };
    let desired = Schema {
        tables: vec![table(
            "Cat",
            vec![column("id", ColumnType::Int, false), column("mood", ColumnType::Enum(s("Cat_mood")), true)],
        )],
        enums: vec![EnumDef { name: s("Cat_mood"), variants: vec![s("HAPPY"), s("HUNGRY")] }],
    };
    let values = vec![ValueCount { table: s("Cat"), column: s("mood"), non_null: 1 }];
    let blocked = plan_push(&current, &desired, &rows("Cat", 1), &values, false).unwrap();
    assert!(!blocked.applied);
    assert!(blocked.to_execute.is_empty());
    let forced = plan_push(&current, &desired, &rows("Cat", 1), &values, true).unwrap();
    assert!(forced.applied);
    assert_eq!(forced.to_execute.len(), 2);
    assert!(matches!(forced.to_execute[0], Step::CreateEnum(_)));
    assert!(matches!(forced.to_execute[1], Step::AlterColumn { .. }));
    assert_eq!(forced.warnings.len(), 1);
    assert_eq!(
        forced.warnings[0].message,
        "You are about to alter the column `mood` on the `Cat` table, which contains 1 non-null values. The data in that column will be cast from `VarChar(191)` to `Enum(\"Cat_mood\")`."
    );
}

#[test]
fn widening_a_column_is_safe_and_narrowing_warns() {
    let wide = vec![Step::AlterColumn {
        table: s("Cat"),
        previous: column("n", ColumnType::Int, false),
        next: column("n", ColumnType::BigInt, false),
    }];
    let c = classify(&wide, &rows("Cat", 5), &vec![]);
    assert_eq!(c.risks, vec![Risk::Safe]);
    assert!(c.warnings.is_empty());
    let narrow = vec![Step::AlterColumn {
        table: s("Cat"),
        previous: column("name", ColumnType::VarChar(191), true),
        next: column("name", ColumnType::VarChar(10), true),
    }];
    let values = vec![ValueCount { table: s("Cat"), column: s("name"), non_null: 12 }];
    let c = classify(&narrow, &rows("Cat", 20), &values);
    assert_eq!(c.risks, vec![Risk::Warning]);
    assert_eq!(
        c.warnings[0].message,
        "You are about to alter the column `name` on the `Cat` table, which contains 12 non-null values. The data in that column will be cast from `VarChar(191)` to `VarChar(10)`."
    );
    assert_eq!(c.warnings[0].step_index, 0);
}

#[test]
fn making_a_column_required_warns_on_a_non_empty_table() {
    let st = vec![Step::AlterColumn {
        table: s("Cat"),
        previous: column("name", ColumnType::Text, true),
        next: column("name", ColumnType::Text, false),
    }];
    let c = classify(&st, &rows("Cat", 2), &vec![]);
    assert_eq!(c.risks, vec![Risk::Warning]);
    assert_eq!(
        c.warnings[0].message,
        "You are about to make the column `name` on the `Cat` table required, but the table holds 2 rows. The migration will fail if the column contains null values."
    );
}

#[test]
fn adding_a_required_column_to_a_non_empty_table_is_unexecutable() {
    let st = vec![
        Step::AddColumn { table: s("Cat"), column: column("age", ColumnType::Int, false) },
        Step::AddColumn { table: s("Cat"), column: column("nick", ColumnType::Text, true) },
    ];
    let c = classify(&st, &rows("Cat", 4), &vec![]);
    assert_eq!(c.risks, vec![Risk::Unexecutable, Risk::Safe]);
    assert_eq!(c.warnings.len(), 1);
    assert_eq!(c.warnings[0].severity, Risk::Unexecutable);
    assert_eq!(
        c.warnings[0].message,
        "Added the required column `age` to the `Cat` table without a default value. There are 4 rows in this table, it is not possible to execute this step."
    );
}

#[test]
fn dropping_a_column_warns_with_the_row_count() {
    let current = Schema {
        tables: vec![table("Cat", vec![column("id", ColumnType::Int, false), column("age", ColumnType::Int, true)])],
        enums: vec![],
    };
    let desired = Schema { tables: vec![table("Cat", vec![column("id", ColumnType::Int, false)])], enums: vec![] };
    let plan = plan_push(&current, &desired, &rows("Cat", 7), &vec![], false).unwrap();
    assert!(!plan.applied);
    assert_eq!(
        plan.warnings[0].message,
        "You are about to drop the column `age` on the `Cat` table, which still contains 7 rows. All the data in the column will be lost."
    );
}

#[test]
fn enum_field_to_string_field_is_an_alter() {
    let current = basic_enum_schema();
    let desired = Schema {
        tables: vec![table(
            "Cat",
            vec![column("id", ColumnType::Int, false), column("mood", ColumnType::Text, false)],
        )],
        enums: vec![],
    };
    let plan = order(&diff(&current, &desired));
    assert_eq!(plan.len(), 2);
    assert!(matches!(plan[0], Step::AlterColumn { .. }));
    assert!(matches!(&plan[1], Step::DropEnum(n) if n == "CatMood"));
}

#[test]
fn rename_is_seen_as_drop_and_add() {
    let current = Schema { tables: vec![table("Cat", vec![column("id", ColumnType::Int, false)])], enums: vec![] };
    let desired = Schema { tables: vec![table("Kitten", vec![column("id", ColumnType::Int, false)])], enums: vec![] };
    let plan = order(&diff(&current, &desired));
    assert_eq!(plan.len(), 2);
    assert!(matches!(&plan[0], Step::DropTable(n) if n == "Cat"));
    assert!(matches!(&plan[1], Step::CreateTable(t) if t.name == "Kitten"));
}

#[test]
fn decimal_rendering() {
    let mut m = String::from("n=");
    push_decimal(&mut m, 0);
    assert_eq!(m, "n=0");
    let mut m = String::new();
    push_decimal(&mut m, 1234567890);
    assert_eq!(m, "1234567890");
}

#[test]
fn failed_statement_stops_the_run() {
    let mut run = ApplyRun::new(3, false);
    assert_eq!(run.next_step(), Some(0));
    run.record(Ok(()));
    assert_eq!(run.next_step(), Some(1));
    run.record(Err(s("syntax error")));
    assert_eq!(run.next_step(), None);
    match run.outcome() {
        Err(ApplyError::Exec { failed_step, committed_steps, message }) => {
            assert_eq!(failed_step, 1);
            assert_eq!(committed_steps, 1);
            assert_eq!(message, "syntax error");
        }
        Ok(()) => panic!("the run failed"),
    }
    let mut run = ApplyRun::new(2, true);
    run.record(Ok(()));
    run.record(Err(s("boom")));
    match run.outcome() {
        Err(ApplyError::Exec { committed_steps, .. }) => assert_eq!(committed_steps, 0),
        Ok(()) => panic!("the run failed"),
    }
    let mut run = ApplyRun::new(1, true);
    run.record(Ok(()));
    assert_eq!(run.next_step(), None);
    assert!(run.outcome().is_ok());
}

#[test]
fn apply_script_passes_the_script_verbatim() {
    let input = ApplyScriptInput { script: s("DROP TABLE \"Cat\";") };
    match ApplyScriptCommand::step(input) {
        Step::RawScript(sql) => assert_eq!(sql, "DROP TABLE \"Cat\";"),
        _ => panic!("not a raw script"),
    }
    assert_eq!(ApplyScriptCommand::finish(Ok(())).unwrap(), ApplyScriptOutput {});
    assert_eq!(ApplyScriptCommand::finish(Err(s("no such table"))).unwrap_err().message, "no such table");
}

#[test]
fn logger_settings() {
    let mut logger = Logger::new("query-engine");
    assert_eq!(logger.service_name(), "query-engine");
    assert_eq!(logger.format(), LogFormat::Json);
    assert!(!logger.telemetry_enabled());
    let setup = logger.subscriber_setup();
    assert!(setup.json);
    assert_eq!(setup.filter, EventFilter::FromEnvironment);
    assert!(!setup.jaeger);
    logger.enable_telemetry(true);
    let setup = logger.subscriber_setup();
    assert_eq!(setup.filter, EventFilter::UpToTrace);
    assert!(setup.jaeger);
    logger.log_format(LogFormat::Text);
    assert_eq!(logger.format(), LogFormat::Text);
    let setup = logger.subscriber_setup();
    assert!(!setup.json);
    assert_eq!(setup.filter, EventFilter::UpToTrace);
}

#[test]
fn unresolved_references_stop_planning() {
    let mut cat = table("Cat", vec![column("id", ColumnType::Int, false), column("ownerId", ColumnType::Int, false)]);
    cat.foreign_keys.push(ForeignKey {
        columns: vec![s("ownerId")],
        referenced_table: s("Owner"),
        referenced_columns: vec![s("id")],
        on_delete: ReferentialAction::Restrict,
        on_update: ReferentialAction::Cascade,
    });
    let desired = Schema { tables: vec![cat], enums: vec![] };
    match plan_push(&Schema::empty(), &desired, &vec![], &vec![], true) {
        Err(PlanningError::UnknownTable { table, referenced }) => {
            assert_eq!(table, "Cat");
            assert_eq!(referenced, "Owner");
        }
        _ => panic!("the reference to Owner does not resolve"),
    }
    let mut desired = basic_enum_schema();
    desired.enums.clear();
    match plan_push(&Schema::empty(), &desired, &vec![], &vec![], true) {
        Err(PlanningError::UnknownEnum { table, column, enum_name }) => {
            assert_eq!(table, "Cat");
            assert_eq!(column, "mood");
            assert_eq!(enum_name, "CatMood");
        }
        _ => panic!("the enum CatMood is missing"),
    }
}

#[test]
fn postgres_renders_a_created_table_with_its_indexes() {
    let mut cat = table(
        "Cat",
        vec![
            Column { name: s("id"), tpe: ColumnType::Int, nullable: false, default: None, autoincrement: true },
            Column {
                name: s("mood"),
                tpe: ColumnType::Enum(s("CatMood")),
                nullable: false,
                default: Some(s("HAPPY")),
                autoincrement: false,
            },
            column("name", ColumnType::VarChar(191), true),
        ],
    );
    cat.indexes.push(Index { name: s("Cat_name_key"), columns: vec![s("name")], unique: true });
    let sql = render_postgres(&Step::CreateTable(cat));
    assert_eq!(
        sql,
        vec![
            s("CREATE TABLE \"Cat\" (\"id\" SERIAL NOT NULL, \"mood\" \"CatMood\" NOT NULL DEFAULT 'HAPPY', \"name\" VARCHAR(191), PRIMARY KEY (\"id\"))"),
            s("CREATE UNIQUE INDEX \"Cat_name_key\" ON \"Cat\"(\"name\")"),
        ]
    );
}

#[test]
fn postgres_renders_foreign_keys_and_enum_changes() {
    let fk = ForeignKey {
        columns: vec![s("moodId")],
        referenced_table: s("CatMood"),
        referenced_columns: vec![s("id")],
        on_delete: ReferentialAction::SetNull,
        on_update: ReferentialAction::Cascade,
    };
    assert_eq!(
        render_postgres(&Step::AddForeignKey { table: s("Cat"), foreign_key: fk }),
        vec![s("ALTER TABLE \"Cat\" ADD CONSTRAINT \"Cat_moodId_fkey\" FOREIGN KEY (\"moodId\") REFERENCES \"CatMood\"(\"id\") ON DELETE SET NULL ON UPDATE CASCADE")]
    );
    let fk = ForeignKey {
        columns: vec![s("a"), s("b")],
        referenced_table: s("T"),
        referenced_columns: vec![s("x"), s("y")],
        on_delete: ReferentialAction::NoAction,
        on_update: ReferentialAction::Restrict,
    };
    assert_eq!(
        render_postgres(&Step::DropForeignKey { table: s("Cat"), foreign_key: fk }),
        vec![s("ALTER TABLE \"Cat\" DROP CONSTRAINT \"Cat_a_b_fkey\"")]
    );
    assert_eq!(
        render_postgres(&Step::AddEnumVariant { enum_name: s("CatMood"), variant: s("JOYJOY") }),
        vec![s("ALTER TYPE \"CatMood\" ADD VALUE 'JOYJOY'")]
    );
    assert_eq!(
        render_postgres(&Step::RemoveEnumVariant { enum_name: s("CatMood"), variant: s("HAPPY") }),
        vec![s("DELETE FROM pg_enum WHERE enumtypid = '\"CatMood\"'::regtype AND enumlabel = 'HAPPY'")]
    );
    assert_eq!(
        render_postgres(&Step::CreateEnum(cat_mood(&["HAPPY", "HUNGRY"]))),
        vec![s("CREATE TYPE \"CatMood\" AS ENUM ('HAPPY', 'HUNGRY')")]
    );
    assert_eq!(render_postgres(&Step::DropEnum(s("CatMood"))), vec![s("DROP TYPE \"CatMood\"")]);
}

#[test]
fn postgres_renders_column_changes() {
    assert_eq!(
        render_postgres(&Step::AlterColumn {
            table: s("Cat"),
            previous: column("mood", ColumnType::VarChar(191), true),
            next: column("mood", ColumnType::Enum(s("CatMood")), false),
        }),
        vec![
            s("ALTER TABLE \"Cat\" ALTER COLUMN \"mood\" SET DATA TYPE \"CatMood\" USING \"mood\"::text::\"CatMood\""),
            s("ALTER TABLE \"Cat\" ALTER COLUMN \"mood\" SET NOT NULL"),
            s("ALTER TABLE \"Cat\" ALTER COLUMN \"mood\" DROP DEFAULT"),
        ]
    );
    assert_eq!(
        render_postgres(&Step::AddColumn { table: s("Cat"), column: column("age", ColumnType::BigInt, true) }),
        vec![s("ALTER TABLE \"Cat\" ADD COLUMN \"age\" BIGINT")]
    );
    assert_eq!(
        render_postgres(&Step::DropColumn { table: s("Cat"), column: s("age") }),
        vec![s("ALTER TABLE \"Cat\" DROP COLUMN \"age\"")]
    );
    assert_eq!(render_postgres(&Step::DropTable(s("Cat"))), vec![s("DROP TABLE \"Cat\"")]);
    assert_eq!(
        render_postgres(&Step::RawScript(s("UPDATE \"Cat\" SET mood = NULL;"))),
        vec![s("UPDATE \"Cat\" SET mood = NULL;")]
    );
}
