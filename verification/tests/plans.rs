use dbgen::cli::{
    open_run, plan, table_names, Args, CompressionName, FormatName, Plan, RngName, TableNames,
};
use dbgen::output::FileInfo;
use dbgen::rng::RngEngine;
use dbgen::seed::seed_to_string;
use rand::RngCore;

fn names() -> TableNames {
    TableNames {
        unique_name: "db.s.t".to_string(),
        qualified_name: "db.s.t1".to_string(),
        table: "t1".to_string(),
    }
}

fn args(files: u32, inserts: u32, rows: u32) -> Args {
    let mut a = Args::default();
    a.files_count = files;
    a.inserts_count = inserts;
    a.rows_count = rows;
    a
}

fn first_draw(engine: &RngEngine) -> u64 {
    match engine {
        RngEngine::ChaCha(rng) => rng.clone().next_u64(),
        RngEngine::Hc128(rng) => rng.clone().next_u64(),
        RngEngine::Isaac(rng) => rng.clone().next_u64(),
        RngEngine::Isaac64(rng) => rng.clone().next_u64(),
        RngEngine::XorShift(rng) => rng.clone().next_u64(),
        RngEngine::Pcg32(rng) => rng.clone().next_u64(),
        RngEngine::Step(rng) => rng.clone().next_u64(),
    }
}

fn first_draws(p: &Plan) -> Vec<u64> {
    let mut draws = Vec::new();
    if let Some(engine) = &p.global_engine {
        draws.push(first_draw(engine));
    }
    for job in &p.jobs {
        draws.push(first_draw(&job.engine));
    }
    draws
}

const SEED: [u8; 32] = [42; 32];

#[test]
fn default_arguments() {
    let a = Args::default();
    assert!(!a.qualified);
    assert_eq!(a.table_name, None);
    assert_eq!(a.out_dir, "");
    assert_eq!((a.files_count, a.inserts_count, a.rows_count), (1, 1, 1));
    assert_eq!(a.last_file_inserts_count, None);
    assert_eq!(a.last_insert_rows_count, None);
    assert_eq!(a.template, "");
    assert_eq!(a.seed, None);
    assert_eq!(a.jobs, 0);
    assert_eq!(a.rng, RngName::Hc128);
    assert!(a.quiet);
    assert_eq!(a.time_zone, "UTC");
    assert_eq!(a.now, None);
    assert_eq!(a.format, FormatName::Sql);
    assert_eq!(a.compression, None);
    assert_eq!(a.compress_level, 6);
    assert!(!a.escape_backslash && !a.no_schemas && !a.no_data);
    assert!(a.initialize.is_empty());
    assert!(a.is_numberable() && a.is_countable());
    assert_eq!(a.total_rows(), None);
}

#[test]
fn plan_of_the_default_arguments() {
    let o = open_run(&Args::default(), names(), &SEED);
    let p = plan(&Args::default(), false, SEED);
    assert_eq!(o.schema_file, Some("db.s.t-schema.sql".to_string()));
    assert_eq!(o.seed_message, None);
    assert!(p.global_engine.is_none());
    assert_eq!(p.jobs.len(), 1);
    assert_eq!(p.jobs[0].row_num, 1);
    assert_eq!(
        p.jobs[0].info,
        FileInfo {
            file_index: 1,
            inserts_count: 1,
            last_insert_rows_count: 1,
        }
    );
    assert_eq!(o.env.file_num_digits, 1);
    assert_eq!(o.env.unique_name, "db.s.t");
    assert_eq!(o.env.qualified_name, "t1");
    assert_eq!(o.env.rows_count, 1);
    assert_eq!(o.env.compression, None);
}

#[test]
fn plan_follows_the_arguments() {
    let mut a = args(100, 3, 10);
    a.qualified = true;
    a.quiet = false;
    a.no_schemas = true;
    a.no_data = true;
    a.escape_backslash = true;
    a.format = FormatName::Csv;
    a.compression = Some(CompressionName::Xz);
    a.compress_level = 4;
    a.last_file_inserts_count = Some(2);
    a.last_insert_rows_count = Some(7);
    let o = open_run(&a, names(), &SEED);
    let p = plan(&a, true, SEED);
    assert_eq!(o.schema_file, None);
    assert_eq!(
        o.seed_message,
        Some(format!("Using seed: {}", seed_to_string(&SEED)))
    );
    assert_eq!(a.total_rows(), Some(99 * 30 + 10 + 7));
    assert!(p.global_engine.is_some());
    assert_eq!(o.env.file_num_digits, 3);
    assert_eq!(o.env.qualified_name, "db.s.t1");
    assert_eq!(o.env.compression, Some((CompressionName::Xz, 4)));
    assert_eq!(o.env.format, FormatName::Csv);
    assert!(o.env.no_data && o.env.escape_backslash);
    assert_eq!(p.jobs.len(), 100);
    for i in 0..100usize {
        let last = i == 99;
        assert_eq!(
            p.jobs[i].info,
            FileInfo {
                file_index: i as u32 + 1,
                inserts_count: if last { 2 } else { 3 },
                last_insert_rows_count: if last { 7 } else { 10 },
            }
        );
        assert_eq!(p.jobs[i].row_num, i as u64 * 30 + 1);
    }
}

#[test]
fn no_files() {
    let o = open_run(&args(0, 1, 1), names(), &SEED);
    let p = plan(&args(0, 1, 1), false, SEED);
    assert!(p.jobs.is_empty());
    assert_eq!(o.env.file_num_digits, 1);
}

#[test]
fn progress_bar_counts_the_rows_of_all_files() {
    for files in 1..4u32 {
        for inserts in 0..3u32 {
            for last_inserts in 1..3u32 {
                let mut a = args(files, inserts, 5);
                a.quiet = false;
                a.last_file_inserts_count = Some(last_inserts);
                a.last_insert_rows_count = Some(2);
                assert!(a.is_numberable() && a.is_countable());
                let p = plan(&a, false, SEED);
                let mut sum: u64 = 0;
                for job in &p.jobs {
                    assert_eq!(job.row_num, sum + 1);
                    if job.info.inserts_count != 0 {
                        sum += u64::from(job.info.inserts_count - 1) * 5
                            + u64::from(job.info.last_insert_rows_count);
                    }
                }
                assert_eq!(a.total_rows(), Some(sum));
            }
        }
    }
}

#[test]
fn too_many_rows_cannot_be_numbered() {
    let mut a = args(u32::MAX, u32::MAX, u32::MAX);
    assert!(!a.is_numberable());
    a.files_count = 2;
    assert!(a.is_numberable());
    a.files_count = 0;
    assert!(a.is_numberable());
}

#[test]
fn too_many_rows_cannot_be_counted() {
    let mut a = args(2, u32::MAX, u32::MAX);
    assert!(!a.is_countable());
    a.files_count = 1;
    assert!(a.is_countable());
    a.quiet = false;
    assert_eq!(
        a.total_rows(),
        Some(u64::from(u32::MAX) * u64::from(u32::MAX))
    );
}

#[test]
fn progress_bar_needs_a_file_and_a_statement() {
    let mut a = args(0, 1, 1);
    assert!(!a.is_countable());
    a.files_count = 1;
    assert!(a.is_countable());
    a.last_file_inserts_count = Some(0);
    assert!(!a.is_countable());
}

#[test]
fn same_arguments_make_the_same_files() {
    let mut a = args(12, 1, 1);
    a.compression = Some(CompressionName::Gzip);
    a.qualified = true;
    let mut b = args(12, 1, 1);
    b.compression = Some(CompressionName::Gzip);
    b.jobs = 3;
    let mut other = names();
    other.table = other.qualified_name.clone();
    let o = open_run(&a, names(), &SEED);
    let u = open_run(&b, other, &[1; 32]);
    for job in plan(&a, false, SEED).jobs {
        let (x, y) = (o.env.data_file(&job.info), u.env.data_file(&job.info));
        assert_eq!(x.name, y.name);
        assert_eq!(x.sink, y.sink);
    }
    assert_eq!(o.env.row_format(), u.env.row_format());
    assert_eq!(o.schema_file, u.schema_file);
    assert_eq!(o.env.schema_statement("()"), u.env.schema_statement("()"));
}

#[test]
fn same_seed_makes_the_same_engines() {
    for rng in [
        RngName::ChaCha,
        RngName::Hc128,
        RngName::Isaac,
        RngName::Isaac64,
        RngName::XorShift,
        RngName::Pcg32,
        RngName::Step,
    ] {
        let mut a = args(5, 1, 1);
        a.rng = rng;
        let mut b = args(5, 1, 1);
        b.rng = rng;
        b.jobs = 8;
        b.out_dir = "elsewhere".to_string();
        let p = first_draws(&plan(&a, true, SEED));
        let q = first_draws(&plan(&b, true, SEED));
        assert_eq!(p, q);
        let other = first_draws(&plan(&a, true, [43; 32]));
        assert_ne!(p, other);
        for i in 0..p.len() {
            for j in 0..i {
                assert_ne!(p[i], p[j]);
            }
        }
    }
}

#[test]
fn global_expressions_take_the_first_engine() {
    let a = args(3, 1, 1);
    let with = first_draws(&plan(&a, true, SEED));
    let without = first_draws(&plan(&a, false, SEED));
    assert_eq!(with.len(), 4);
    assert_eq!(without.len(), 3);
    assert_eq!(with[..3], without[..]);
}

#[test]
fn table_name_is_overridden() {
    let other = TableNames {
        unique_name: "x".to_string(),
        qualified_name: "y".to_string(),
        table: "z".to_string(),
    };
    assert_eq!(table_names(Some(other), names()).unique_name, "x");
    assert_eq!(table_names(None, names()).unique_name, "db.s.t");
}
