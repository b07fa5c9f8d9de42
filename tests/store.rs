use chrono::{Datelike, Timelike};
use fantastic_time::conf::GlobalConfig;
use fantastic_time::datetime::LocalDateTime;
use fantastic_time::store::{ImgMetaDO, ImgMetaDao, SqlValue, StorageError};
use rand::{thread_rng, Rng};
use rusqlite::{Connection, Result as DbResult};

fn create_table(conn: &Connection) {
    ImgMetaDao::create_table(&conn).unwrap();
}

fn local(t: chrono::NaiveDateTime) -> LocalDateTime {
    LocalDateTime {
        year: t.year(),
        month: t.month(),
        day: t.day(),
        hour: t.hour(),
        minute: t.minute(),
        second: t.second(),
    }
}

fn gen_test_datas(len: usize) -> Vec<ImgMetaDO> {
    let mut rng = thread_rng();

    let mut metas = Vec::new();
    let cur = chrono::Local::now();

    let time = cur.naive_local();

    for i in 1..(len + 1) {
        let sign = uuid::Uuid::new_v4();

        let sub_millis = rng.gen_range(0..10000i64);
        let time = time
            .checked_sub_signed(chrono::Duration::milliseconds(sub_millis))
            .expect("Gen test naive datetime");

        let meta = ImgMetaDO::with_id(i.to_string(), local(time), sign.to_string());
        metas.push(meta);
    }
    metas
}

#[test]
fn test_basic_db() -> DbResult<()> {
    let conn = Connection::open_in_memory()?;
    create_table(&conn);

    let meta_datas = gen_test_datas(100);

    assert!(ImgMetaDao::batch_write(meta_datas, &conn).is_ok());

    let mut id = 1;

    for loop_num in 0..10 {
        let img_metas = ImgMetaDao::query_all(loop_num * 10, 10, &conn).unwrap();
        for img in img_metas {
            assert_eq!(id.to_string(), img.id.unwrap());

            id += 1;
        }
    }
    Ok(())
}

fn at(second: u32) -> LocalDateTime {
    LocalDateTime { year: 2022, month: 5, day: 4, hour: 12, minute: 40, second }
}

#[test]
fn duplicate_key_fails_alone() {
    let conn = Connection::open_in_memory().unwrap();
    create_table(&conn);
    let mut records = Vec::new();
    for i in 1..=10u32 {
        let id = if i == 5 { "1".to_string() } else { i.to_string() };
        records.push(ImgMetaDO::with_id(id, at(i), format!("sig{}", i)));
    }
    let failed = ImgMetaDao::batch_write(records, &conn).unwrap_err();
    assert_eq!(failed.len(), 1);
    assert_eq!(failed[0].sign, "sig5");
    assert_eq!(failed[0].time, at(5));
    let page = ImgMetaDao::query_all(0, 10, &conn).unwrap();
    assert_eq!(page.len(), 9);
    let ids: Vec<String> = page.iter().map(|r| r.id.clone().unwrap()).collect();
    assert_eq!(ids, vec!["1", "2", "3", "4", "6", "7", "8", "9", "10"]);
    assert!(page.iter().all(|r| r.sign != "sig5"));
}

#[test]
fn query_page_is_repeatable() {
    let conn = Connection::open_in_memory().unwrap();
    create_table(&conn);
    let records: Vec<ImgMetaDO> = (1..=6u32).map(|i| ImgMetaDO::with_id(i.to_string(), at(i), format!("s{}", i))).collect();
    assert!(ImgMetaDao::batch_write(records, &conn).is_ok());
    let a = ImgMetaDao::query_all(2, 3, &conn).unwrap();
    let b = ImgMetaDao::query_all(2, 3, &conn).unwrap();
    assert_eq!(a.len(), 3);
    let key = |v: &Vec<ImgMetaDO>| v.iter().map(|r| (r.id.clone(), r.time, r.sign.clone())).collect::<Vec<_>>();
    assert_eq!(key(&a), key(&b));
    assert_eq!(a[0].id, Some("3".to_string()));
}

#[test]
fn record_without_key_gets_one() {
    let conn = Connection::open_in_memory().unwrap();
    create_table(&conn);
    assert!(ImgMetaDao::batch_write(vec![ImgMetaDO::new(at(1), "s".to_string())], &conn).is_ok());
    let page = ImgMetaDao::query_all(0, 10, &conn).unwrap();
    assert_eq!(page.len(), 1);
    assert_eq!(page[0].id.as_ref().unwrap().len(), 36);
    assert_eq!(page[0].time, at(1));
}

#[test]
fn invalid_time_is_reported_not_written() {
    let conn = Connection::open_in_memory().unwrap();
    create_table(&conn);
    let bad = LocalDateTime { year: 2023, month: 2, day: 30, hour: 0, minute: 0, second: 0 };
    let failed = ImgMetaDao::batch_write(
        vec![ImgMetaDO::with_id("a".to_string(), bad, "s".to_string()), ImgMetaDO::with_id("b".to_string(), at(2), "t".to_string())],
        &conn,
    )
    .unwrap_err();
    assert_eq!(failed.len(), 1);
    assert_eq!(failed[0].id, Some("a".to_string()));
    assert_eq!(ImgMetaDao::query_all(0, 10, &conn).unwrap().len(), 1);
}

#[test]
fn write_without_table_fails_every_record() {
    let conn = Connection::open_in_memory().unwrap();
    let failed = ImgMetaDao::batch_write(
        vec![ImgMetaDO::with_id("a".to_string(), at(1), "s".to_string()), ImgMetaDO::with_id("b".to_string(), at(2), "t".to_string())],
        &conn,
    )
    .unwrap_err();
    assert_eq!(failed.len(), 2);
    assert!(matches!(ImgMetaDao::query_all(0, 10, &conn), Err(StorageError::Database(_))));
    assert!(matches!(ImgMetaDao::create_table(&conn), Ok(_)));
    assert!(matches!(ImgMetaDao::create_table(&conn), Err(StorageError::Database(_))));
}

#[test]
fn stored_time_text_and_seconds() {
    let t = LocalDateTime { year: 2015, month: 5, day: 15, hour: 0, minute: 0, second: 0 };
    assert_eq!(ImgMetaDao::gen_time(&t), ("2015-05-15 00:00:00".to_string(), 1431648000));
    let t = LocalDateTime { year: 1969, month: 12, day: 31, hour: 23, minute: 59, second: 59 };
    assert_eq!(ImgMetaDao::gen_time(&t), ("1969-12-31 23:59:59".to_string(), -1));
    let t = LocalDateTime { year: 2016, month: 3, day: 7, hour: 2, minute: 3, second: 9 };
    assert_eq!(ImgMetaDao::gen_time(&t).0, "2016-03-07 02:03:09");
}

#[test]
fn row_reads_back_as_record() {
    let r = ImgMetaDao::convert_to_img_meta_do("x".to_string(), 1431648000, Some("s".to_string())).unwrap();
    assert_eq!(r.id, Some("x".to_string()));
    assert_eq!(r.time, LocalDateTime { year: 2015, month: 5, day: 15, hour: 0, minute: 0, second: 0 });
    assert_eq!(r.sign, "s");
    let r = ImgMetaDao::convert_to_img_meta_do("y".to_string(), 0, None).unwrap();
    assert_eq!(r.sign, "");
    assert_eq!(r.time, LocalDateTime { year: 1970, month: 1, day: 1, hour: 0, minute: 0, second: 0 });
    assert!(matches!(
        ImgMetaDao::convert_to_img_meta_do("z".to_string(), i64::MAX, None),
        Err(StorageError::BadTimestamp(i64::MAX))
    ));
}

#[test]
fn db_path_joins_store_name() {
    let c = |p: &str| GlobalConfig { meta_path: p.to_string() }.db_path();
    assert_eq!(c("/var/meta"), "/var/meta/fantasy_db");
    assert_eq!(c("/var/meta/"), "/var/meta/fantasy_db");
    assert_eq!(c(""), "fantasy_db");
}

#[test]
fn calendar_checks() {
    assert!(LocalDateTime::from_ymd(2024, 2, 29).is_some());
    assert!(LocalDateTime::from_ymd(2100, 2, 29).is_none());
    assert!(LocalDateTime { year: 2024, month: 4, day: 30, hour: 23, minute: 59, second: 59 }.is_valid());
    assert!(!LocalDateTime { year: 2024, month: 4, day: 31, hour: 0, minute: 0, second: 0 }.is_valid());
    assert!(!LocalDateTime { year: 2024, month: 4, day: 1, hour: 24, minute: 0, second: 0 }.is_valid());
}

fn text_of(v: &SqlValue) -> String {
    match v {
        SqlValue::Text(s) => s.clone(),
        SqlValue::Integer(i) => panic!("expected text, got {}", i),
    }
}

#[test]
fn insert_params_of_record() {
    let t = LocalDateTime { year: 2015, month: 5, day: 15, hour: 0, minute: 0, second: 0 };
    let d = ImgMetaDO::with_id("k".to_string(), t, "sig".to_string());
    let p = ImgMetaDao::insert_params(&d, "k".to_string());
    assert_eq!(p.len(), 4);
    assert_eq!(text_of(&p[0]), "k");
    assert_eq!(text_of(&p[1]), "2015-05-15 00:00:00");
    assert!(matches!(p[2], SqlValue::Integer(1431648000)));
    assert_eq!(text_of(&p[3]), "sig");
}

#[test]
fn plan_keys_and_skips() {
    let bad = LocalDateTime { year: 2023, month: 2, day: 30, hour: 0, minute: 0, second: 0 };
    let plan = ImgMetaDao::plan_rows(&vec![
        ImgMetaDO::with_id("a".to_string(), at(1), "s".to_string()),
        ImgMetaDO::new(at(2), "t".to_string()),
        ImgMetaDO::with_id("c".to_string(), bad, "u".to_string()),
    ]);
    assert_eq!(plan.len(), 3);
    assert_eq!(text_of(&plan[0].as_ref().unwrap()[0]), "a");
    assert_eq!(text_of(&plan[1].as_ref().unwrap()[0]).len(), 36);
    assert_eq!(text_of(&plan[1].as_ref().unwrap()[3]), "t");
    assert!(plan[2].is_none());
}

#[test]
fn failures_follow_outcomes() {
    let recs = vec![
        ImgMetaDO::with_id("a".to_string(), at(1), "s".to_string()),
        ImgMetaDO::with_id("b".to_string(), at(2), "t".to_string()),
        ImgMetaDO::with_id("c".to_string(), at(3), "u".to_string()),
    ];
    let failed = ImgMetaDao::collect_failures(recs, &vec![true, false, true]).unwrap_err();
    assert_eq!(failed.len(), 1);
    assert_eq!(failed[0].id, Some("b".to_string()));
    let all = vec![ImgMetaDO::with_id("a".to_string(), at(1), "s".to_string())];
    assert!(ImgMetaDao::collect_failures(all, &vec![true]).is_ok());
    assert!(ImgMetaDao::collect_failures(Vec::new(), &Vec::new()).is_ok());
}

#[test]
fn rows_read_back_in_order() {
    let rows = vec![
        ("1".to_string(), 1431648000i64, Some("s".to_string())),
        ("2".to_string(), 0i64, None),
    ];
    let recs = ImgMetaDao::rows_to_records(rows).unwrap();
    assert_eq!(recs.len(), 2);
    assert_eq!(recs[0].id, Some("1".to_string()));
    assert_eq!(recs[0].time, LocalDateTime { year: 2015, month: 5, day: 15, hour: 0, minute: 0, second: 0 });
    assert_eq!(recs[1].sign, "");
    let bad = vec![("1".to_string(), 0i64, None), ("2".to_string(), i64::MIN, None)];
    assert!(matches!(ImgMetaDao::rows_to_records(bad), Err(StorageError::BadTimestamp(i64::MIN))));
}

#[test]
fn counts_fit_the_database() {
    assert_eq!(ImgMetaDao::sql_count(10), 10);
    assert_eq!(ImgMetaDao::sql_count(usize::MAX), i64::MAX);
}
