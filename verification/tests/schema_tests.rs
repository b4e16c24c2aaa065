use std::cell::Cell;
use std::rc::Rc;

use schema_builder::{Schema, Table};

type Callback = fn(Table) -> Table;

fn id_table(t: Table) -> Table {
    t
}

fn add_id_column(mut t: Table) -> Table {
    t.add_item("\"id\" serial primary key");
    t
}

fn add_a_fragment(mut t: Table) -> Table {
    t.add_item("\"alpha\" integer");
    t
}

fn add_b_fragment(mut t: Table) -> Table {
    t.add_item("\"beta\" text");
    t
}

fn add_two_fragments(mut t: Table) -> Table {
    t.add_item("\"id\" serial primary key");
    t.add_item(", \"name\" varchar(255)");
    t
}

#[test]
fn render_zero_tables_is_empty_without_namespace() {
    let mut s: Schema<Callback> = Schema::new();
    assert_eq!(s.exec(), "");
}

#[test]
fn render_zero_tables_is_empty_with_namespace() {
    let mut s: Schema<Callback> = Schema::name("public");
    assert_eq!(s.exec(), "");
}

#[test]
fn render_one_table_with_namespace() {
    let mut s = Schema::name("public").create_table("users", add_id_column as Callback);
    assert_eq!(
        s.exec(),
        "create table \"public\".\"users\" (\"id\" serial primary key)"
    );
}

#[test]
fn registration_order_determines_output_order() {
    let mut s = Schema::name("s")
        .create_table("a", add_a_fragment as Callback)
        .create_table("b", add_b_fragment as Callback);
    let out = s.exec();
    assert_eq!(
        out,
        "create table \"s\".\"a\" (\"alpha\" integer)create table \"s\".\"b\" (\"beta\" text)"
    );
    let a_at = out.find("\"a\"").unwrap();
    let b_at = out.find("\"b\"").unwrap();
    assert!(a_at < b_at);
}

#[test]
fn statements_are_concatenated_with_no_separator() {
    let mut s = Schema::name("s")
        .create_table("a", id_table as Callback)
        .create_table("b", id_table as Callback);
    assert_eq!(s.exec(), "create table \"s\".\"a\" ()create table \"s\".\"b\" ()");
}

#[test]
fn each_callback_runs_exactly_once_per_render() {
    let count = Rc::new(Cell::new(0u32));
    let seen = count.clone();
    let cb = move |mut t: Table| -> Table {
        seen.set(seen.get() + 1);
        t.add_item("\"id\" serial primary key");
        t
    };
    let mut s = Schema::name("public").create_table("users", cb);
    let first = s.exec();
    assert_eq!(count.get(), 1);
    assert_eq!(
        first,
        "create table \"public\".\"users\" (\"id\" serial primary key)"
    );
    let second = s.exec();
    assert_eq!(count.get(), 1);
    assert_eq!(second, "");
}

#[test]
fn skeletons_are_isolated_between_jobs() {
    let mut s = Schema::name("s")
        .create_table("a", add_a_fragment as Callback)
        .create_table("b", add_b_fragment as Callback);
    let out = s.exec();
    let b_stmt_at = out.find("create table \"s\".\"b\"").unwrap();
    let (a_part, b_part) = out.split_at(b_stmt_at);
    assert!(a_part.contains("\"alpha\" integer"));
    assert!(!a_part.contains("\"beta\" text"));
    assert!(b_part.contains("\"beta\" text"));
    assert!(!b_part.contains("\"alpha\" integer"));
}

#[test]
fn rendering_without_namespace_omits_the_qualifier() {
    let mut s = Schema::new().create_table("users", add_id_column as Callback);
    assert_eq!(s.exec(), "create table \"users\" (\"id\" serial primary key)");
}

#[test]
fn fragments_are_concatenated_verbatim_in_order() {
    let mut s = Schema::name("public").create_table("users", add_two_fragments as Callback);
    assert_eq!(
        s.exec(),
        "create table \"public\".\"users\" (\"id\" serial primary key, \"name\" varchar(255))"
    );
}

#[test]
fn duplicate_table_names_render_twice() {
    let mut s = Schema::name("s")
        .create_table("t", add_a_fragment as Callback)
        .create_table("t", add_a_fragment as Callback);
    assert_eq!(
        s.exec(),
        "create table \"s\".\"t\" (\"alpha\" integer)create table \"s\".\"t\" (\"alpha\" integer)"
    );
}

#[test]
fn registration_is_lazy() {
    let count = Rc::new(Cell::new(0u32));
    let seen = count.clone();
    let cb = move |t: Table| -> Table {
        seen.set(seen.get() + 1);
        t
    };
    let s = Schema::name("public").create_table("users", cb);
    assert_eq!(count.get(), 0);
    drop(s);
    assert_eq!(count.get(), 0);
}

#[test]
fn registering_after_a_render_renders_only_the_new_table() {
    let mut s = Schema::name("s").create_table("a", id_table as Callback);
    assert_eq!(s.exec(), "create table \"s\".\"a\" ()");
    let mut s = s.create_table("b", id_table as Callback);
    assert_eq!(s.exec(), "create table \"s\".\"b\" ()");
}

#[test]
fn skeleton_starts_empty_with_its_name() {
    let t = Table::new("users");
    assert_eq!(t.name, "users");
    assert!(t.items.is_empty());
}

#[test]
fn add_item_appends_in_order() {
    let mut t = Table::new("users");
    t.add_item("one");
    t.add_item(", two");
    assert_eq!(t.items, vec!["one".to_string(), ", two".to_string()]);
}
